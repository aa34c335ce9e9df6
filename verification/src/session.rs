//! The state of one ACP session: what the user wants, what the agent last reported, what it
//! offers, and the permission policy in force.
use vstd::prelude::*;

use crate::agent_reconcile::{ActionModel, ReconcileAction};
use crate::identifiers::{ConfigKey, ConfigValue, ModeId, ModelId, SessionId};
use crate::json::{json_items, json_view, Json, JsonValue};
use crate::permission_authority::{
    gate_view, initial_policy, mode_name, mode_of, snapshot_view, CommandEvePolicyState,
    PermissionMode, PolicyGateError, PolicyModel, PolicySnapshot, RuntimeCapabilityReceipt,
    SnapshotModel,
};
use crate::text::{same_text, str_view, text_view, trim};
use crate::text_map::TextMap;

verus! {

/// A mode or model that an agent offers.
#[derive(Debug, PartialEq, Eq)]
pub struct CatalogEntry {
    pub id: String,
    pub name: String,
}

impl CatalogEntry {
    pub fn new(id: &str, name: &str) -> (r: Self)
        ensures
            r.id@ == id@,
            r.name@ == name@,
    {
        CatalogEntry { id: id.to_owned(), name: name.to_owned() }
    }
}

/// What a catalog holds: the current entry, and the ids and names of all.
pub struct CatalogModel {
    pub current: Seq<char>,
    pub available: Seq<(Seq<char>, Seq<char>)>,
}

/// The ids and names of entries.
pub open spec fn entries_view(entries: Seq<CatalogEntry>) -> Seq<(Seq<char>, Seq<char>)> {
    entries.map_values(|entry: CatalogEntry| (entry.id@, entry.name@))
}

impl CatalogModel {
    /// Whether an id can be selected. A catalog without entries does not say.
    pub open spec fn offers(self, id: Seq<char>) -> bool {
        self.available.len() == 0 || self.lists(id)
    }

    /// Whether an id is listed.
    pub open spec fn lists(self, id: Seq<char>) -> bool {
        exists|i: int| 0 <= i < self.available.len() && (#[trigger] self.available[i]).0 == id
    }
}

/// The modes of a session.
#[derive(Debug)]
pub struct SessionModeState {
    pub current_mode_id: String,
    pub available_modes: Vec<CatalogEntry>,
}

impl View for SessionModeState {
    type V = CatalogModel;

    open spec fn view(&self) -> CatalogModel {
        CatalogModel {
            current: self.current_mode_id@,
            available: entries_view(self.available_modes@),
        }
    }
}

/// The models of a session.
#[derive(Debug)]
pub struct SessionModelState {
    pub current_model_id: String,
    pub available_models: Vec<CatalogEntry>,
}

impl View for SessionModelState {
    type V = CatalogModel;

    open spec fn view(&self) -> CatalogModel {
        CatalogModel {
            current: self.current_model_id@,
            available: entries_view(self.available_models@),
        }
    }
}

fn clone_entries(entries: &Vec<CatalogEntry>) -> (r: Vec<CatalogEntry>)
    ensures
        entries_view(r@) == entries_view(entries@),
{
    let mut out: Vec<CatalogEntry> = Vec::new();
    let mut i: usize = 0;
    while i < entries.len()
        invariant
            i <= entries@.len(),
            out@.len() == i,
            forall|j: int|
                0 <= j < i ==> (#[trigger] out@[j]).id@ == entries@[j].id@ && out@[j].name@
                    == entries@[j].name@,
        decreases entries@.len() - i,
    {
        out.push(CatalogEntry { id: entries[i].id.clone(), name: entries[i].name.clone() });
        i = i + 1;
    }
    assert(entries_view(out@) =~= entries_view(entries@));
    out
}

fn lists_id(entries: &Vec<CatalogEntry>, id: &str) -> (r: bool)
    ensures
        r == exists|i: int|
            0 <= i < entries@.len() && (#[trigger] entries_view(entries@)[i]).0 == id@,
{
    let mut i: usize = 0;
    while i < entries.len()
        invariant
            i <= entries@.len(),
            forall|j: int| 0 <= j < i ==> (#[trigger] entries_view(entries@)[j]).0 != id@,
        decreases entries@.len() - i,
    {
        assert(entries_view(entries@)[i as int].0 == entries@[i as int].id@);
        if same_text(entries[i].id.as_str(), id) {
            return true;
        }
        i = i + 1;
    }
    false
}

/// What a configuration option is about.
#[derive(Debug, PartialEq, Eq)]
pub enum SessionConfigOptionCategory {
    Mode,
    Model,
    ThoughtLevel,
    Other(String),
}

/// What an option is about, as text.
pub enum CategoryModel {
    Mode,
    Model,
    ThoughtLevel,
    Other(Seq<char>),
}

impl View for SessionConfigOptionCategory {
    type V = CategoryModel;

    open spec fn view(&self) -> CategoryModel {
        match self {
            SessionConfigOptionCategory::Mode => CategoryModel::Mode,
            SessionConfigOptionCategory::Model => CategoryModel::Model,
            SessionConfigOptionCategory::ThoughtLevel => CategoryModel::ThoughtLevel,
            SessionConfigOptionCategory::Other(name) => CategoryModel::Other(name@),
        }
    }
}

impl SessionConfigOptionCategory {
    fn same_as(&self, other: &SessionConfigOptionCategory) -> (r: bool)
        ensures
            r == (self@ == other@),
    {
        match (self, other) {
            (SessionConfigOptionCategory::Mode, SessionConfigOptionCategory::Mode) => true,
            (SessionConfigOptionCategory::Model, SessionConfigOptionCategory::Model) => true,
            (
                SessionConfigOptionCategory::ThoughtLevel,
                SessionConfigOptionCategory::ThoughtLevel,
            ) => true,
            (
                SessionConfigOptionCategory::Other(a),
                SessionConfigOptionCategory::Other(b),
            ) => same_text(a.as_str(), b.as_str()),
            _ => false,
        }
    }
}

impl Clone for SessionConfigOptionCategory {
    fn clone(&self) -> (r: Self)
        ensures
            r@ == self@,
    {
        match self {
            SessionConfigOptionCategory::Mode => SessionConfigOptionCategory::Mode,
            SessionConfigOptionCategory::Model => SessionConfigOptionCategory::Model,
            SessionConfigOptionCategory::ThoughtLevel => SessionConfigOptionCategory::ThoughtLevel,
            SessionConfigOptionCategory::Other(name) => SessionConfigOptionCategory::Other(
                name.clone(),
            ),
        }
    }
}

/// The values of a selection, in groups or not.
#[derive(Debug)]
pub enum SessionConfigSelectOptions {
    Ungrouped(Vec<String>),
    Grouped(Vec<Vec<String>>),
}

/// How an option is set.
#[derive(Debug)]
pub enum SessionConfigKind {
    Select { current_value: String, options: SessionConfigSelectOptions },
    Other,
}

/// A configuration option that an agent offers.
#[derive(Debug)]
pub struct SessionConfigOption {
    pub id: String,
    pub category: Option<SessionConfigOptionCategory>,
    pub kind: SessionConfigKind,
}

/// Whether a list of values holds a value.
pub open spec fn holds_value(values: Seq<String>, value: Seq<char>) -> bool {
    exists|i: int| 0 <= i < values.len() && (#[trigger] values[i])@ == value
}

impl SessionConfigKind {
    /// Whether a value can be selected.
    pub open spec fn selects(&self, value: Seq<char>) -> bool {
        match self {
            SessionConfigKind::Select { current_value, options } => match options {
                SessionConfigSelectOptions::Ungrouped(values) => holds_value(values@, value),
                SessionConfigSelectOptions::Grouped(groups) => exists|g: int|
                    0 <= g < groups@.len() && holds_value((#[trigger] groups@[g])@, value),
            },
            SessionConfigKind::Other => false,
        }
    }

    /// The selected value.
    pub open spec fn selected(&self) -> Option<Seq<char>> {
        match self {
            SessionConfigKind::Select { current_value, options } => Some(current_value@),
            SessionConfigKind::Other => None,
        }
    }
}

impl SessionConfigOption {
    /// What the option is about.
    pub open spec fn about(&self) -> Option<CategoryModel> {
        match self.category {
            Some(category) => Some(category@),
            None => None,
        }
    }

    /// Whether the option sets the mode.
    pub open spec fn sets_mode(&self) -> bool {
        self.id@ == "mode"@ || self.about() == Some(CategoryModel::Mode)
    }
}

fn list_holds(values: &Vec<String>, value: &str) -> (r: bool)
    ensures
        r == holds_value(values@, value@),
{
    let mut i: usize = 0;
    while i < values.len()
        invariant
            i <= values@.len(),
            forall|j: int| 0 <= j < i ==> (#[trigger] values@[j])@ != value@,
        decreases values@.len() - i,
    {
        if same_text(values[i].as_str(), value) {
            return true;
        }
        i = i + 1;
    }
    false
}

fn groups_hold(groups: &Vec<Vec<String>>, value: &str) -> (r: bool)
    ensures
        r == exists|g: int| 0 <= g < groups@.len() && holds_value((#[trigger] groups@[g])@, value@),
{
    let mut g: usize = 0;
    while g < groups.len()
        invariant
            g <= groups@.len(),
            forall|j: int| 0 <= j < g ==> !holds_value((#[trigger] groups@[j])@, value@),
        decreases groups@.len() - g,
    {
        if list_holds(&groups[g], value) {
            return true;
        }
        g = g + 1;
    }
    false
}

fn select_option_contains_value(kind: &SessionConfigKind, value: &str) -> (r: bool)
    ensures
        r == kind.selects(value@),
{
    match kind {
        SessionConfigKind::Select { current_value: _, options } => match options {
            SessionConfigSelectOptions::Ungrouped(values) => list_holds(values, value),
            SessionConfigSelectOptions::Grouped(groups) => groups_hold(groups, value),
        },
        SessionConfigKind::Other => false,
    }
}

fn is_mode_config_option(option: &SessionConfigOption) -> (r: bool)
    ensures
        r == option.sets_mode(),
{
    if same_text(option.id.as_str(), "mode") {
        return true;
    }
    match &option.category {
        Some(SessionConfigOptionCategory::Mode) => true,
        _ => false,
    }
}

/// Whether an id is one by which options of a category are also known.
pub open spec fn is_alias(category: CategoryModel, id: Seq<char>) -> bool {
    match category {
        CategoryModel::Mode => id == "mode"@ || id == "modes"@,
        CategoryModel::Model => id == "model"@ || id == "models"@,
        CategoryModel::ThoughtLevel => id == "thought_level"@ || id == "reasoning_effort"@ || id
            == "effort"@ || id == "thinking_budget"@ || id == "thinking"@,
        CategoryModel::Other(_) => false,
    }
}

fn is_category_alias(category: &SessionConfigOptionCategory, id: &str) -> (r: bool)
    ensures
        r == is_alias(category@, id@),
{
    match category {
        SessionConfigOptionCategory::Mode => same_text(id, "mode") || same_text(id, "modes"),
        SessionConfigOptionCategory::Model => same_text(id, "model") || same_text(id, "models"),
        SessionConfigOptionCategory::ThoughtLevel => same_text(id, "thought_level") || same_text(
            id,
            "reasoning_effort",
        ) || same_text(id, "effort") || same_text(id, "thinking_budget") || same_text(
            id,
            "thinking",
        ),
        SessionConfigOptionCategory::Other(_) => false,
    }
}

/// The position of the first option of a category; behind the last where there is none.
pub open spec fn categorized(options: Seq<SessionConfigOption>, category: CategoryModel) -> nat
    decreases options.len(),
{
    if options.len() == 0 || options[0].about() == Some(category) {
        0
    } else {
        1 + categorized(options.drop_first(), category)
    }
}

/// The position of the first option with an alias of a category; behind the last where there is
/// none.
pub open spec fn aliased(options: Seq<SessionConfigOption>, category: CategoryModel) -> nat
    decreases options.len(),
{
    if options.len() == 0 || is_alias(category, options[0].id@) {
        0
    } else {
        1 + aliased(options.drop_first(), category)
    }
}

/// The position of the option that a seed for a category goes to: the first of that category, else
/// the first with an alias of it.
pub open spec fn seeded(options: Seq<SessionConfigOption>, category: CategoryModel) -> nat {
    if categorized(options, category) < options.len() {
        categorized(options, category)
    } else {
        aliased(options, category)
    }
}

proof fn lemma_categorized(options: Seq<SessionConfigOption>, category: CategoryModel, at: int)
    requires
        0 <= at <= options.len(),
        forall|i: int| 0 <= i < at ==> (#[trigger] options[i]).about() != Some(category),
        at < options.len() ==> options[at].about() == Some(category),
    ensures
        categorized(options, category) == at,
    decreases at,
{
    if at > 0 {
        assert(options[0].about() != Some(category));
        let rest = options.drop_first();
        assert forall|i: int| 0 <= i < at - 1 implies (#[trigger] rest[i]).about() != Some(
            category,
        ) by {
            assert(rest[i] == options[i + 1]);
        }
        lemma_categorized(rest, category, at - 1);
    }
}

proof fn lemma_aliased(options: Seq<SessionConfigOption>, category: CategoryModel, at: int)
    requires
        0 <= at <= options.len(),
        forall|i: int| 0 <= i < at ==> !is_alias(category, (#[trigger] options[i]).id@),
        at < options.len() ==> is_alias(category, options[at].id@),
    ensures
        aliased(options, category) == at,
    decreases at,
{
    if at > 0 {
        assert(!is_alias(category, options[0].id@));
        let rest = options.drop_first();
        assert forall|i: int| 0 <= i < at - 1 implies !is_alias(
            category,
            (#[trigger] rest[i]).id@,
        ) by {
            assert(rest[i] == options[i + 1]);
        }
        lemma_aliased(rest, category, at - 1);
    }
}

fn select_option_for_startup_seed(
    options: &Vec<SessionConfigOption>,
    category: &SessionConfigOptionCategory,
) -> (r: usize)
    ensures
        r == seeded(options@, category@),
        r <= options@.len(),
{
    let mut i: usize = 0;
    while i < options.len()
        invariant
            i <= options@.len(),
            forall|j: int| 0 <= j < i ==> (#[trigger] options@[j]).about() != Some(category@),
        decreases options@.len() - i,
    {
        let of_category = match &options[i].category {
            Some(own) => own.same_as(category),
            None => false,
        };
        if of_category {
            proof {
                lemma_categorized(options@, category@, i as int);
            }
            return i;
        }
        i = i + 1;
    }
    proof {
        lemma_categorized(options@, category@, i as int);
    }
    let mut k: usize = 0;
    while k < options.len()
        invariant
            k <= options@.len(),
            categorized(options@, category@) == options@.len(),
            forall|j: int| 0 <= j < k ==> !is_alias(category@, (#[trigger] options@[j]).id@),
        decreases options@.len() - k,
    {
        if is_category_alias(category, options[k].id.as_str()) {
            proof {
                lemma_aliased(options@, category@, k as int);
            }
            return k;
        }
        k = k + 1;
    }
    proof {
        lemma_aliased(options@, category@, k as int);
    }
    k
}

/// The texts that a map holds.
pub open spec fn texts_of(map: Map<Seq<char>, String>) -> Map<Seq<char>, Seq<char>> {
    map.map_values(|text: String| text@)
}

/// Why a session ended.
#[derive(Debug, PartialEq, Eq)]
pub struct CloseReason {
    pub code: String,
    pub detail: Option<String>,
}

/// Something that happened to a session and has to be told.
#[derive(Debug)]
pub enum AcpSessionEvent {
    SessionAssigned { session_id: SessionId },
    SessionOpened,
    DesiredModeChanged { mode: ModeId },
    DesiredModelChanged { model: ModelId },
    DesiredConfigChanged { selections: TextMap<String> },
    ObservedModeSynced { mode: ModeId },
    ObservedModelSynced { model: ModelId },
    ObservedConfigSynced { selections: TextMap<String> },
    ObservedContextUsageChanged { usage_json: String },
}

/// What happened to a session, as text.
pub enum EventModel {
    SessionAssigned { session_id: Seq<char> },
    SessionOpened,
    DesiredModeChanged { mode: Seq<char> },
    DesiredModelChanged { model: Seq<char> },
    DesiredConfigChanged { selections: Map<Seq<char>, Seq<char>> },
    ObservedModeSynced { mode: Seq<char> },
    ObservedModelSynced { model: Seq<char> },
    ObservedConfigSynced { selections: Map<Seq<char>, Seq<char>> },
    ObservedContextUsageChanged { usage_json: Seq<char> },
}

impl View for AcpSessionEvent {
    type V = EventModel;

    open spec fn view(&self) -> EventModel {
        match self {
            AcpSessionEvent::SessionAssigned { session_id } => EventModel::SessionAssigned {
                session_id: session_id@,
            },
            AcpSessionEvent::SessionOpened => EventModel::SessionOpened,
            AcpSessionEvent::DesiredModeChanged { mode } => EventModel::DesiredModeChanged {
                mode: mode@,
            },
            AcpSessionEvent::DesiredModelChanged { model } => EventModel::DesiredModelChanged {
                model: model@,
            },
            AcpSessionEvent::DesiredConfigChanged { selections } =>
                EventModel::DesiredConfigChanged { selections: texts_of(selections@) },
            AcpSessionEvent::ObservedModeSynced { mode } => EventModel::ObservedModeSynced {
                mode: mode@,
            },
            AcpSessionEvent::ObservedModelSynced { model } => EventModel::ObservedModelSynced {
                model: model@,
            },
            AcpSessionEvent::ObservedConfigSynced { selections } =>
                EventModel::ObservedConfigSynced { selections: texts_of(selections@) },
            AcpSessionEvent::ObservedContextUsageChanged { usage_json } =>
                EventModel::ObservedContextUsageChanged { usage_json: usage_json@ },
        }
    }
}

/// What a list of events tells.
pub open spec fn events_view(events: Seq<AcpSessionEvent>) -> Seq<EventModel> {
    events.map_values(|event: AcpSessionEvent| event@)
}

/// A configuration value to be set once the agent says which options it has.
#[derive(Debug, PartialEq, Eq)]
pub struct PendingStartupConfigSeed {
    pub category: SessionConfigOptionCategory,
    pub value: ConfigValue,
}

/// Such a value, as text.
pub struct SeedModel {
    pub category: CategoryModel,
    pub value: Seq<char>,
}

/// What a list of seeds holds.
pub open spec fn seeds_view(seeds: Seq<PendingStartupConfigSeed>) -> Seq<SeedModel> {
    seeds.map_values(
        |seed: PendingStartupConfigSeed|
            SeedModel { category: seed.category@, value: seed.value@ },
    )
}

/// What became of a seed.
#[derive(Debug, PartialEq, Eq)]
pub enum PendingStartupConfigSeedResult {
    Applied { category: SessionConfigOptionCategory, option_id: ConfigKey },
    OptionNotAdvertised { category: SessionConfigOptionCategory },
    ValueNotSelectable { category: SessionConfigOptionCategory },
}

/// What became of a seed, as text.
pub enum SeedResultModel {
    Applied { category: CategoryModel, option_id: Seq<char> },
    OptionNotAdvertised { category: CategoryModel },
    ValueNotSelectable { category: CategoryModel },
}

impl View for PendingStartupConfigSeedResult {
    type V = SeedResultModel;

    open spec fn view(&self) -> SeedResultModel {
        match self {
            PendingStartupConfigSeedResult::Applied { category, option_id } =>
                SeedResultModel::Applied { category: category@, option_id: option_id@ },
            PendingStartupConfigSeedResult::OptionNotAdvertised { category } =>
                SeedResultModel::OptionNotAdvertised { category: category@ },
            PendingStartupConfigSeedResult::ValueNotSelectable { category } =>
                SeedResultModel::ValueNotSelectable { category: category@ },
        }
    }
}

/// What became of a list of seeds.
pub open spec fn results_view(results: Seq<PendingStartupConfigSeedResult>) -> Seq<SeedResultModel> {
    results.map_values(|result: PendingStartupConfigSeedResult| result@)
}

/// What a session holds.
pub struct SessionModel {
    pub session_id: Option<Seq<char>>,
    pub opened: bool,
    pub desired_mode: Option<Seq<char>>,
    pub desired_model: Option<Seq<char>>,
    pub desired_config: Map<Seq<char>, Seq<char>>,
    pub pending_seeds: Seq<SeedModel>,
    pub observed_mode: Option<Seq<char>>,
    pub observed_model: Option<Seq<char>>,
    pub observed_config: Map<Seq<char>, Seq<char>>,
    pub modes: Option<CatalogModel>,
    pub models: Option<CatalogModel>,
    pub config_options: Option<Seq<SessionConfigOption>>,
    pub capabilities: Option<Json>,
    pub auth_methods: Option<Seq<Json>>,
    pub commands: Option<Seq<Json>>,
    pub context_usage: Option<Seq<char>>,
    pub policy: PolicyModel,
    pub mode_attested: bool,
    pub config_set_in_flight: bool,
    pub events: Seq<EventModel>,
    pub prelude_pending: bool,
    pub close_reason: Option<CloseReason>,
}

/// The permission mode that a mode id names.
pub open spec fn permission_mode(mode: Seq<char>) -> Option<PermissionMode> {
    mode_of(trim(mode))
}

/// The permission mode that an optional mode id names.
pub open spec fn optional_permission_mode(mode: Option<Seq<char>>) -> Option<PermissionMode> {
    match mode {
        Some(mode) => permission_mode(mode),
        None => None,
    }
}

/// After the runtime's word that a mode id is in force, where it names a permission mode.
pub open spec fn policy_told(policy: PolicyModel, mode: Option<Seq<char>>) -> PolicyModel {
    match optional_permission_mode(mode) {
        Some(mode) => policy.acknowledging(mode),
        None => policy,
    }
}

/// A catalog with another current entry.
pub open spec fn catalog_at(catalog: Option<CatalogModel>, current: Seq<char>) -> CatalogModel {
    CatalogModel {
        current,
        available: match catalog {
            Some(catalog) => catalog.available,
            None => Seq::empty(),
        },
    }
}

impl SessionModel {
    /// With one more event.
    pub open spec fn telling(self, event: EventModel) -> SessionModel {
        SessionModel { events: self.events.push(event), ..self }
    }

    /// Whether enough revisions are left for any one operation.
    pub open spec fn has_revisions(self) -> bool {
        self.policy.next_revision < u64::MAX - 1
    }

    /// Whether a mode can be selected.
    pub open spec fn mode_valid(self, mode: Seq<char>) -> bool {
        self.modes is None || self.modes->0.offers(mode)
    }

    /// Whether a model can be selected.
    pub open spec fn model_valid(self, model: Seq<char>) -> bool {
        self.models is None || self.models->0.offers(model)
    }

    /// With a session id, where it had none. The policy of the new session starts from what the
    /// agent was seen to run, and what the user wants is asked for.
    pub open spec fn assigned(self, session_id: Seq<char>) -> SessionModel {
        if self.session_id is Some {
            self
        } else {
            let begun = self.policy.in_new_session();
            let told = if self.mode_attested {
                policy_told(begun, self.observed_mode)
            } else {
                begun
            };
            let asked = match optional_permission_mode(self.desired_mode) {
                Some(desired) => if told.is_acknowledged(desired) {
                    told
                } else {
                    told.requested(desired)
                },
                None => told,
            };
            (SessionModel { session_id: Some(session_id), policy: asked, ..self }).telling(
                EventModel::SessionAssigned { session_id },
            )
        }
    }

    /// Without its session id, and whatever depended on it.
    pub open spec fn unassigned(self) -> SessionModel {
        SessionModel {
            session_id: None,
            opened: false,
            close_reason: None,
            mode_attested: false,
            policy: self.policy.revoked(),
            ..self
        }
    }

    /// Whether wanting a mode changes anything.
    pub open spec fn takes_mode(self, mode: Seq<char>) -> bool {
        mode.len() > 0 && self.mode_valid(mode) && self.desired_mode != Some(mode)
    }

    /// With a mode wanted.
    pub open spec fn wanting_mode(self, mode: Seq<char>) -> SessionModel {
        if self.takes_mode(mode) {
            (SessionModel {
                desired_mode: Some(mode),
                policy: match permission_mode(mode) {
                    Some(permission) => self.policy.requested(permission),
                    None => self.policy,
                },
                ..self
            }).telling(EventModel::DesiredModeChanged { mode })
        } else {
            self
        }
    }

    /// Why a policy cannot be asked for, if it cannot.
    pub open spec fn policy_fault(self, mode: Seq<char>) -> Option<PolicyGateError> {
        match permission_mode(mode) {
            None => Some(PolicyGateError::UnsupportedPermissionMode),
            Some(permission) => if self.policy.available(permission) {
                None
            } else {
                Some(PolicyGateError::GuardedAutoUnavailable)
            },
        }
    }

    /// With a policy asked for on the transport. A mode that cannot be asked for takes back the
    /// policy in force.
    pub open spec fn asking_policy(self, mode: Seq<char>) -> SessionModel {
        if self.policy_fault(mode) is Some {
            SessionModel { policy: self.policy.revoked(), ..self }
        } else {
            let asked = SessionModel {
                desired_mode: Some(mode),
                policy: self.policy.changing(permission_mode(mode)->0),
                ..self
            };
            if self.desired_mode != Some(mode) {
                asked.telling(EventModel::DesiredModeChanged { mode })
            } else {
                asked
            }
        }
    }

    /// Whether wanting a model changes anything.
    pub open spec fn takes_model(self, model: Seq<char>) -> bool {
        model.len() > 0 && self.model_valid(model) && self.desired_model != Some(model)
    }

    /// With a model wanted.
    pub open spec fn wanting_model(self, model: Seq<char>) -> SessionModel {
        if self.takes_model(model) {
            (SessionModel { desired_model: Some(model), ..self }).telling(
                EventModel::DesiredModelChanged { model },
            )
        } else {
            self
        }
    }

    /// The wanted mode, where the agent does not offer it.
    pub open spec fn invalid_mode(self) -> Option<Seq<char>> {
        if self.desired_mode is Some && !self.mode_valid(self.desired_mode->0) {
            self.desired_mode
        } else {
            None
        }
    }

    /// The wanted model, where the agent does not offer it.
    pub open spec fn invalid_model(self) -> Option<Seq<char>> {
        if self.desired_model is Some && !self.model_valid(self.desired_model->0) {
            self.desired_model
        } else {
            None
        }
    }

    /// The wanted mode, where it names no permission mode that the runtime can run.
    pub open spec fn invalid_policy_mode(self) -> Option<Seq<char>> {
        if self.desired_mode is Some && self.policy_fault(self.desired_mode->0) is Some {
            self.desired_mode
        } else {
            None
        }
    }

    /// With a configuration value wanted.
    pub open spec fn wanting_config(self, key: Seq<char>, value: Seq<char>) -> SessionModel {
        let config = self.desired_config.insert(key, value);
        let wanted = SessionModel { desired_config: config, ..self };
        if self.desired_config.dom().contains(key) && self.desired_config[key] == value {
            wanted
        } else {
            wanted.telling(EventModel::DesiredConfigChanged { selections: config })
        }
    }

    /// With a value to be set once the agent says which options it has.
    pub open spec fn seeding(self, category: CategoryModel, value: Seq<char>) -> SessionModel {
        if value.len() == 0 || self.pending_seeds.contains(SeedModel { category, value }) {
            self
        } else {
            SessionModel {
                pending_seeds: self.pending_seeds.push(SeedModel { category, value }),
                ..self
            }
        }
    }

    /// Without the wanted mode or model that a configuration option of a category takes the place
    /// of.
    pub open spec fn without_legacy(self, category: CategoryModel) -> SessionModel {
        match category {
            CategoryModel::Mode => SessionModel { desired_mode: None, ..self },
            CategoryModel::Model => SessionModel { desired_model: None, ..self },
            _ => self,
        }
    }

    /// After a seed that could not be applied. Where the agent has no such option, the mode and the
    /// model are still wanted the old way and the thought level waits; where the value cannot be
    /// selected, the old way goes too.
    pub open spec fn unresolved(self, seed: SeedModel, option_was_advertised: bool) -> SessionModel {
        match seed.category {
            CategoryModel::Mode | CategoryModel::Model => if option_was_advertised {
                self.without_legacy(seed.category)
            } else {
                self
            },
            CategoryModel::ThoughtLevel => if option_was_advertised {
                self
            } else {
                self.seeding(seed.category, seed.value)
            },
            CategoryModel::Other(_) => self,
        }
    }

    /// What becomes of a seed.
    pub open spec fn seed_result(self, seed: SeedModel) -> SeedResultModel {
        match self.config_options {
            Some(options) => {
                let at = seeded(options, seed.category);
                if at >= options.len() {
                    SeedResultModel::OptionNotAdvertised { category: seed.category }
                } else if !options[at as int].kind.selects(seed.value) {
                    SeedResultModel::ValueNotSelectable { category: seed.category }
                } else {
                    SeedResultModel::Applied {
                        category: seed.category,
                        option_id: options[at as int].id@,
                    }
                }
            },
            None => SeedResultModel::OptionNotAdvertised { category: seed.category },
        }
    }

    /// After a seed.
    pub open spec fn after_seed(self, seed: SeedModel) -> SessionModel {
        match self.seed_result(seed) {
            SeedResultModel::Applied { category, option_id } => self.without_legacy(
                seed.category,
            ).wanting_config(option_id, seed.value),
            SeedResultModel::OptionNotAdvertised { category } => self.unresolved(seed, false),
            SeedResultModel::ValueNotSelectable { category } => self.unresolved(seed, true),
        }
    }

    /// After a list of seeds, one after the other.
    pub open spec fn after_seeds(self, seeds: Seq<SeedModel>) -> SessionModel
        decreases seeds.len(),
    {
        if seeds.len() == 0 {
            self
        } else {
            self.after_seeds(seeds.drop_last()).after_seed(seeds.last())
        }
    }

    /// What becomes of a list of seeds.
    pub open spec fn seed_results(self, seeds: Seq<SeedModel>) -> Seq<SeedResultModel>
        decreases seeds.len(),
    {
        if seeds.len() == 0 {
            Seq::empty()
        } else {
            self.seed_results(seeds.drop_last()).push(
                self.after_seeds(seeds.drop_last()).seed_result(seeds.last()),
            )
        }
    }

    /// Without pending seeds.
    pub open spec fn unseeded(self) -> SessionModel {
        SessionModel { pending_seeds: Seq::empty(), ..self }
    }
}

/// A configuration without the entries that set the mode, and the last mode that they set.
pub open spec fn mode_migrated(
    config: Map<Seq<char>, Seq<char>>,
    options: Seq<SessionConfigOption>,
) -> (Map<Seq<char>, Seq<char>>, Option<Seq<char>>)
    decreases options.len(),
{
    if options.len() == 0 {
        (config, None)
    } else {
        let (kept, selected) = mode_migrated(config, options.drop_last());
        let last = options.last();
        if last.sets_mode() && kept.dom().contains(last.id@) {
            (kept.remove(last.id@), Some(kept[last.id@]))
        } else {
            (kept, selected)
        }
    }
}

/// A configuration as the agent reports it by its options. Where the mode does not count
/// (`with_mode` is false), an option that sets it is dropped.
pub open spec fn config_synced(
    config: Map<Seq<char>, Seq<char>>,
    options: Seq<SessionConfigOption>,
    with_mode: bool,
) -> Map<Seq<char>, Seq<char>>
    decreases options.len(),
{
    if options.len() == 0 {
        config
    } else {
        let synced = config_synced(config, options.drop_last(), with_mode);
        let last = options.last();
        if !with_mode && last.sets_mode() {
            synced.remove(last.id@)
        } else {
            match last.kind.selected() {
                Some(value) => synced.insert(last.id@, value),
                None => synced,
            }
        }
    }
}

/// Whether any option changes the configuration when it is reported, one after the other.
pub open spec fn config_changes(
    config: Map<Seq<char>, Seq<char>>,
    options: Seq<SessionConfigOption>,
    with_mode: bool,
) -> bool
    decreases options.len(),
{
    if options.len() == 0 {
        false
    } else {
        let synced = config_synced(config, options.drop_last(), with_mode);
        let last = options.last();
        config_changes(config, options.drop_last(), with_mode) || if !with_mode
            && last.sets_mode() {
            synced.dom().contains(last.id@)
        } else {
            match last.kind.selected() {
                Some(value) => !(synced.dom().contains(last.id@) && synced[last.id@] == value),
                None => false,
            }
        }
    }
}

impl SessionModel {
    /// The options that the agent offers; none where it did not say.
    pub open spec fn offered_options(self) -> Seq<SessionConfigOption> {
        match self.config_options {
            Some(options) => options,
            None => Seq::empty(),
        }
    }

    /// The mode that the wanted configuration sets.
    pub open spec fn configured_mode(self) -> Option<Seq<char>> {
        mode_migrated(self.desired_config, self.offered_options()).1
    }

    /// With the mode that the wanted configuration sets asked for as a policy instead.
    pub open spec fn with_mode_migrated(self) -> SessionModel {
        match self.configured_mode() {
            None => self,
            Some(mode) => {
                let config = mode_migrated(self.desired_config, self.offered_options()).0;
                (SessionModel { desired_config: config, ..self }).telling(
                    EventModel::DesiredConfigChanged { selections: config },
                ).asking_policy(mode)
            },
        }
    }

    /// After the agent reported its mode.
    pub open spec fn observing_mode(self, mode: Seq<char>, modes: CatalogModel) -> SessionModel {
        let seen = SessionModel {
            observed_mode: Some(mode),
            mode_attested: true,
            policy: policy_told(self.policy, Some(mode)),
            modes: Some(modes),
            ..self
        };
        if self.observed_mode != Some(mode) {
            seen.telling(EventModel::ObservedModeSynced { mode })
        } else {
            seen
        }
    }

    /// After the transport reported its mode. It is no word on the policy, except that any mode but
    /// the asking one takes the policy back.
    pub open spec fn observing_transport(self, mode: Seq<char>, modes: CatalogModel) -> SessionModel {
        SessionModel {
            observed_mode: Some(mode),
            policy: if mode == "default"@ {
                self.policy
            } else {
                self.policy.revoked()
            },
            modes: Some(modes),
            ..self
        }
    }

    /// After the agent reported its model.
    pub open spec fn observing_model(self, model: Seq<char>, models: CatalogModel) -> SessionModel {
        let seen = SessionModel {
            observed_model: Some(model),
            models: Some(models),
            ..self
        };
        if self.observed_model != Some(model) {
            seen.telling(EventModel::ObservedModelSynced { model })
        } else {
            seen
        }
    }

    /// After the agent reported one configuration value.
    pub open spec fn observing_config(self, key: Seq<char>, value: Seq<char>) -> SessionModel {
        let config = self.observed_config.insert(key, value);
        let seen = SessionModel { observed_config: config, ..self };
        if self.observed_config.dom().contains(key) && self.observed_config[key] == value {
            seen
        } else {
            seen.telling(EventModel::ObservedConfigSynced { selections: config })
        }
    }

    /// The models as they are taken over: the wanted one counts as current where it is listed.
    pub open spec fn preserving_model(self, models: CatalogModel) -> CatalogModel {
        if self.desired_model is Some && models.current != self.desired_model->0 && models.lists(
            self.desired_model->0,
        ) {
            CatalogModel { current: self.desired_model->0, ..models }
        } else {
            models
        }
    }

    /// After the agent reported its configuration options, from which its modes and models were
    /// derived.
    pub open spec fn observing_options(
        self,
        options: Seq<SessionConfigOption>,
        modes: Option<CatalogModel>,
        models: Option<CatalogModel>,
        with_mode: bool,
    ) -> SessionModel {
        let moded = if with_mode && modes is Some {
            self.observing_mode(modes->0.current, modes->0)
        } else {
            self
        };
        let modeled = if models is Some {
            let preserved = moded.preserving_model(models->0);
            moded.observing_model(preserved.current, preserved)
        } else {
            moded
        };
        let config = config_synced(modeled.observed_config, options, with_mode);
        let seen = SessionModel {
            observed_config: config,
            config_options: Some(options),
            ..modeled
        };
        if config_changes(modeled.observed_config, options, with_mode) {
            seen.telling(EventModel::ObservedConfigSynced { selections: config })
        } else {
            seen
        }
    }

    /// After a policy was acknowledged by way of the transport.
    pub open spec fn acknowledging_policy(self, mode: Seq<char>) -> SessionModel {
        if self.policy_fault(mode) is Some {
            self
        } else {
            let wanted = if self.desired_mode != Some(mode) {
                (SessionModel { desired_mode: Some(mode), ..self }).telling(
                    EventModel::DesiredModeChanged { mode },
                )
            } else {
                self
            };
            SessionModel { policy: self.policy.acknowledging(permission_mode(mode)->0), ..wanted }
        }
    }

    /// Whether the transport is in the asking mode.
    pub open spec fn transport_is_safe(self) -> bool {
        self.observed_mode == Some("default"@)
    }

    /// The policy that a new turn runs under.
    pub open spec fn turn_policy(self) -> Result<SnapshotModel, PolicyGateError> {
        if self.transport_is_safe() {
            self.policy.turn_policy()
        } else {
            Err(PolicyGateError::UnsafeTransportMode)
        }
    }

    /// After a turn was begun.
    pub open spec fn in_turn(self) -> SessionModel {
        SessionModel {
            policy: if self.transport_is_safe() {
                self.policy.in_turn()
            } else {
                self.policy.revoked()
            },
            ..self
        }
    }

    /// The policy under which an operation of a session is decided.
    pub open spec fn operation_policy(self, session_id: Seq<char>) -> Result<
        SnapshotModel,
        PolicyGateError,
    > {
        if self.session_id != Some(session_id) {
            Err(PolicyGateError::StaleTurnPolicy)
        } else if !self.transport_is_safe() {
            Err(PolicyGateError::UnsafeTransportMode)
        } else {
            self.policy.operation_policy()
        }
    }

    /// Whether the wanted mode has to be set: it is neither the one that the agent reports nor, on a
    /// safe transport, the policy in force, and the runtime can run it.
    pub open spec fn mode_drifts(self) -> bool {
        &&& self.desired_mode is Some
        &&& !(self.policy.routable() is Some && mode_name(self.policy.routable()->0.mode)
            == self.desired_mode->0 && self.transport_is_safe())
        &&& self.observed_mode != self.desired_mode
        &&& (permission_mode(self.desired_mode->0) is Some ==> self.policy.available(
            permission_mode(self.desired_mode->0)->0,
        ))
    }

    /// Whether the wanted model has to be set.
    pub open spec fn model_drifts(self) -> bool {
        self.desired_model is Some && self.observed_model != self.desired_model
    }

    /// Whether a wanted configuration value has to be set.
    pub open spec fn config_drifts(self, key: Seq<char>) -> bool {
        &&& self.desired_config.dom().contains(key)
        &&& !(self.observed_config.dom().contains(key) && self.observed_config[key]
            == self.desired_config[key])
    }
}

/// The token of a configuration change in flight.
#[derive(Debug, Clone, Copy, PartialEq, Eq, Structural)]
pub struct ConfigSetGuardToken;

/// The state of one ACP session.
#[derive(Debug)]
pub struct AcpSession {
    session_id: Option<SessionId>,
    opened: bool,
    desired_mode: Option<ModeId>,
    desired_model: Option<ModelId>,
    desired_config: TextMap<String>,
    pending_startup_config: Vec<PendingStartupConfigSeed>,
    observed_mode: Option<ModeId>,
    observed_model: Option<ModelId>,
    observed_config: TextMap<String>,
    modes: Option<SessionModeState>,
    models: Option<SessionModelState>,
    config_options: Option<Vec<SessionConfigOption>>,
    agent_capabilities: Option<JsonValue>,
    auth_methods: Option<Vec<JsonValue>>,
    available_commands: Option<Vec<JsonValue>>,
    context_usage: Option<String>,
    command_eve_policy: CommandEvePolicyState,
    runtime_mode_attested: bool,
    config_set_in_flight: bool,
    pending_events: Vec<AcpSessionEvent>,
    pending_session_new_prelude: bool,
    last_close_reason: Option<CloseReason>,
}

/// The text of an optional session id.
pub open spec fn session_id_view(id: Option<SessionId>) -> Option<Seq<char>> {
    match id {
        Some(id) => Some(id@),
        None => None,
    }
}

/// The text of an optional mode.
pub open spec fn mode_view(mode: Option<ModeId>) -> Option<Seq<char>> {
    match mode {
        Some(mode) => Some(mode@),
        None => None,
    }
}

/// The text of an optional model.
pub open spec fn model_view(model: Option<ModelId>) -> Option<Seq<char>> {
    match model {
        Some(model) => Some(model@),
        None => None,
    }
}

/// What an optional mode catalog holds.
pub open spec fn modes_view(modes: Option<SessionModeState>) -> Option<CatalogModel> {
    match modes {
        Some(modes) => Some(modes@),
        None => None,
    }
}

/// What an optional model catalog holds.
pub open spec fn models_view(models: Option<SessionModelState>) -> Option<CatalogModel> {
    match models {
        Some(models) => Some(models@),
        None => None,
    }
}

/// What an optional list of configuration options holds.
pub open spec fn options_seq(options: Option<Vec<SessionConfigOption>>) -> Option<
    Seq<SessionConfigOption>,
> {
    match options {
        Some(options) => Some(options@),
        None => None,
    }
}

/// What an optional list of values holds.
pub open spec fn json_list_view(items: Option<Vec<JsonValue>>) -> Option<Seq<Json>> {
    match items {
        Some(items) => Some(json_items(items@)),
        None => None,
    }
}

impl View for AcpSession {
    type V = SessionModel;

    closed spec fn view(&self) -> SessionModel {
        SessionModel {
            session_id: session_id_view(self.session_id),
            opened: self.opened,
            desired_mode: mode_view(self.desired_mode),
            desired_model: model_view(self.desired_model),
            desired_config: texts_of(self.desired_config@),
            pending_seeds: seeds_view(self.pending_startup_config@),
            observed_mode: mode_view(self.observed_mode),
            observed_model: model_view(self.observed_model),
            observed_config: texts_of(self.observed_config@),
            modes: modes_view(self.modes),
            models: models_view(self.models),
            config_options: options_seq(self.config_options),
            capabilities: json_view(self.agent_capabilities),
            auth_methods: json_list_view(self.auth_methods),
            commands: json_list_view(self.available_commands),
            context_usage: text_view(self.context_usage),
            policy: self.command_eve_policy@,
            mode_attested: self.runtime_mode_attested,
            config_set_in_flight: self.config_set_in_flight,
            events: events_view(self.pending_events@),
            prelude_pending: self.pending_session_new_prelude,
            close_reason: self.last_close_reason,
        }
    }
}

/// A session of which nothing is known but what the user wants.
pub open spec fn initial_session(
    mode: Option<Seq<char>>,
    model: Option<Seq<char>>,
    config: Map<Seq<char>, Seq<char>>,
) -> SessionModel {
    SessionModel {
        session_id: None,
        opened: false,
        desired_mode: mode,
        desired_model: model,
        desired_config: config,
        pending_seeds: Seq::empty(),
        observed_mode: None,
        observed_model: None,
        observed_config: Map::empty(),
        modes: None,
        models: None,
        config_options: None,
        capabilities: None,
        auth_methods: None,
        commands: None,
        context_usage: None,
        policy: initial_policy(),
        mode_attested: false,
        config_set_in_flight: false,
        events: Seq::empty(),
        prelude_pending: false,
        close_reason: None,
    }
}

fn is_mode(mode: &Option<ModeId>, id: &str) -> (r: bool)
    ensures
        r == (mode_view(*mode) == Some(id@)),
{
    match mode {
        Some(mode) => same_text(mode.as_str(), id),
        None => false,
    }
}

fn is_model(model: &Option<ModelId>, id: &str) -> (r: bool)
    ensures
        r == (model_view(*model) == Some(id@)),
{
    match model {
        Some(model) => same_text(model.as_str(), id),
        None => false,
    }
}

fn map_holds(map: &TextMap<String>, key: &str, value: &str) -> (r: bool)
    requires
        map.wf(),
    ensures
        r == (texts_of(map@).dom().contains(key@) && texts_of(map@)[key@] == value@),
{
    match map.get(key) {
        Some(own) => same_text(own.as_str(), value),
        None => false,
    }
}

impl AcpSession {
    pub closed spec fn wf(&self) -> bool {
        self.desired_config.wf() && self.observed_config.wf()
    }

    pub fn new(
        initial_mode: Option<ModeId>,
        initial_model: Option<ModelId>,
        config_selections: TextMap<String>,
    ) -> (r: Self)
        requires
            config_selections.wf(),
        ensures
            r.wf(),
            r@ == initial_session(
                mode_view(initial_mode),
                model_view(initial_model),
                texts_of(config_selections@),
            ),
    {
        let r = AcpSession {
            session_id: None,
            opened: false,
            desired_mode: initial_mode,
            desired_model: initial_model,
            desired_config: config_selections,
            pending_startup_config: Vec::new(),
            observed_mode: None,
            observed_model: None,
            observed_config: TextMap::new(),
            modes: None,
            models: None,
            config_options: None,
            agent_capabilities: None,
            auth_methods: None,
            available_commands: None,
            context_usage: None,
            command_eve_policy: CommandEvePolicyState::default(),
            runtime_mode_attested: false,
            config_set_in_flight: false,
            pending_events: Vec::new(),
            pending_session_new_prelude: false,
            last_close_reason: None,
        };
        assert(r@.observed_config =~= Map::<Seq<char>, Seq<char>>::empty());
        assert(r@.pending_seeds =~= Seq::<SeedModel>::empty());
        assert(r@.events =~= Seq::<EventModel>::empty());
        r
    }

    fn tell(&mut self, event: AcpSessionEvent)
        requires
            old(self).wf(),
        ensures
            final(self).wf(),
            final(self)@ == old(self)@.telling(event@),
    {
        let ghost before = events_view(self.pending_events@);
        let ghost told = event@;
        self.pending_events.push(event);
        assert(events_view(self.pending_events@) =~= before.push(told));
    }

    /// Takes the runtime's receipt.
    pub fn apply_command_eve_runtime_hello(&mut self, receipt: RuntimeCapabilityReceipt) -> (r: bool)
        requires
            old(self).wf(),
        ensures
            final(self).wf(),
            r == receipt@.valid_for("hermes"@),
            final(self)@ == (SessionModel {
                policy: old(self)@.policy.greeted(receipt@),
                ..old(self)@
            }),
    {
        self.command_eve_policy.apply_runtime_hello(receipt)
    }

    /// Begins a change of the configuration, unless one is in flight.
    pub fn try_begin_config_set(&mut self) -> (r: Option<ConfigSetGuardToken>)
        requires
            old(self).wf(),
        ensures
            final(self).wf(),
            r is Some <==> !old(self)@.config_set_in_flight,
            final(self)@ == (SessionModel { config_set_in_flight: true, ..old(self)@ }),
    {
        if self.config_set_in_flight {
            return None;
        }
        self.config_set_in_flight = true;
        Some(ConfigSetGuardToken)
    }

    /// Ends the change of the configuration.
    pub fn end_config_set(&mut self, _token: ConfigSetGuardToken)
        requires
            old(self).wf(),
        ensures
            final(self).wf(),
            final(self)@ == (SessionModel { config_set_in_flight: false, ..old(self)@ }),
    {
        self.config_set_in_flight = false;
    }

    pub fn session_id(&self) -> (r: Option<&str>)
        ensures
            str_view(r) == self@.session_id,
    {
        match &self.session_id {
            Some(session_id) => Some(session_id.as_str()),
            None => None,
        }
    }

    pub fn session_id_vo(&self) -> (r: Option<&SessionId>)
        ensures
            match r {
                Some(session_id) => self@.session_id == Some(session_id@),
                None => self@.session_id is None,
            },
    {
        match &self.session_id {
            Some(session_id) => Some(session_id),
            None => None,
        }
    }

    /// Assigns the session id. Assigning the same one again changes nothing.
    pub fn set_session_id(&mut self, sid: SessionId)
        requires
            old(self).wf(),
            old(self)@.session_id is Some ==> old(self)@.session_id == Some(sid@),
            old(self)@.session_id is None ==> old(self)@.has_revisions(),
        ensures
            final(self).wf(),
            final(self)@ == old(self)@.assigned(sid@),
    {
        if self.session_id.is_some() {
            return;
        }
        self.session_id = Some(sid.clone());
        self.command_eve_policy.begin_session();
        if self.runtime_mode_attested {
            if let Some(mode) = &self.observed_mode {
                if let Some(mode) = PermissionMode::parse(mode.as_str()) {
                    let _ = self.command_eve_policy.acknowledge_runtime_mode(mode);
                }
            }
        }
        if let Some(mode) = &self.desired_mode {
            if let Some(desired) = PermissionMode::parse(mode.as_str()) {
                let acknowledged = match self.command_eve_policy.acknowledged() {
                    Some(snapshot) => snapshot.mode == desired,
                    None => false,
                };
                if !acknowledged {
                    let _ = self.command_eve_policy.request_mode(desired);
                }
            }
        }
        self.tell(AcpSessionEvent::SessionAssigned { session_id: sid });
    }

    /// Drops a session id that the agent no longer knows.
    pub fn clear_session_id(&mut self)
        requires
            old(self).wf(),
        ensures
            final(self).wf(),
            final(self)@ == old(self)@.unassigned(),
    {
        self.session_id = None;
        self.opened = false;
        self.last_close_reason = None;
        self.runtime_mode_attested = false;
        self.command_eve_policy.revoke();
    }

    /// Records why the last turn closed.
    pub fn record_close_reason(&mut self, reason: Option<CloseReason>)
        requires
            old(self).wf(),
        ensures
            final(self).wf(),
            final(self)@ == (SessionModel { close_reason: reason, ..old(self)@ }),
    {
        self.last_close_reason = reason;
    }

    pub fn last_close_reason(&self) -> (r: Option<&CloseReason>)
        ensures
            match r {
                Some(reason) => self@.close_reason == Some(*reason),
                None => self@.close_reason is None,
            },
    {
        match &self.last_close_reason {
            Some(reason) => Some(reason),
            None => None,
        }
    }

    /// Takes the reason why the last turn closed.
    pub fn take_close_reason(&mut self) -> (r: Option<CloseReason>)
        requires
            old(self).wf(),
        ensures
            final(self).wf(),
            r == old(self)@.close_reason,
            final(self)@ == (SessionModel { close_reason: None, ..old(self)@ }),
    {
        self.last_close_reason.take()
    }

    pub fn is_opened(&self) -> (r: bool)
        ensures
            r == self@.opened,
    {
        self.opened
    }

    /// Marks the session as opened.
    pub fn mark_opened(&mut self)
        requires
            old(self).wf(),
        ensures
            final(self).wf(),
            final(self)@ == if old(self)@.opened {
                old(self)@
            } else {
                (SessionModel { opened: true, ..old(self)@ }).telling(EventModel::SessionOpened)
            },
    {
        if !self.opened {
            self.opened = true;
            self.tell(AcpSessionEvent::SessionOpened);
        }
    }

    /// The next prompt is the first one of a new session.
    pub fn mark_pending_session_new_prelude(&mut self)
        requires
            old(self).wf(),
        ensures
            final(self).wf(),
            final(self)@ == (SessionModel { prelude_pending: true, ..old(self)@ }),
    {
        self.pending_session_new_prelude = true;
    }

    /// Says, once, whether the prompt is the first one of a new session.
    pub fn take_pending_session_new_prelude(&mut self) -> (r: bool)
        requires
            old(self).wf(),
        ensures
            final(self).wf(),
            r == old(self)@.prelude_pending,
            final(self)@ == (SessionModel { prelude_pending: false, ..old(self)@ }),
    {
        let pending = self.pending_session_new_prelude;
        self.pending_session_new_prelude = false;
        pending
    }

    pub fn desired_mode(&self) -> (r: Option<&str>)
        ensures
            str_view(r) == self@.desired_mode,
    {
        match &self.desired_mode {
            Some(mode) => Some(mode.as_str()),
            None => None,
        }
    }

    pub fn desired_mode_id(&self) -> (r: Option<&ModeId>)
        ensures
            match r {
                Some(mode) => self@.desired_mode == Some(mode@),
                None => self@.desired_mode is None,
            },
    {
        match &self.desired_mode {
            Some(mode) => Some(mode),
            None => None,
        }
    }

    pub fn desired_model(&self) -> (r: Option<&str>)
        ensures
            str_view(r) == self@.desired_model,
    {
        match &self.desired_model {
            Some(model) => Some(model.as_str()),
            None => None,
        }
    }

    pub fn desired_model_id(&self) -> (r: Option<&ModelId>)
        ensures
            match r {
                Some(model) => self@.desired_model == Some(model@),
                None => self@.desired_model is None,
            },
    {
        match &self.desired_model {
            Some(model) => Some(model),
            None => None,
        }
    }

    pub fn desired_config_selections(&self) -> (r: &TextMap<String>)
        requires
            self.wf(),
        ensures
            r.wf(),
            texts_of(r@) == self@.desired_config,
    {
        &self.desired_config
    }

    fn is_mode_valid(&self, mode_id: &str) -> (r: bool)
        ensures
            r == self@.mode_valid(mode_id@),
    {
        match &self.modes {
            None => true,
            Some(modes) => modes.available_modes.len() == 0 || lists_id(
                &modes.available_modes,
                mode_id,
            ),
        }
    }

    fn is_model_valid(&self, model_id: &str) -> (r: bool)
        ensures
            r == self@.model_valid(model_id@),
    {
        match &self.models {
            None => true,
            Some(models) => models.available_models.len() == 0 || lists_id(
                &models.available_models,
                model_id,
            ),
        }
    }

    /// Whether a model can be selected. Before the agent says what it offers, any can.
    pub fn can_select_model(&self, model_id: &str) -> (r: bool)
        ensures
            r == (model_id@.len() > 0 && self@.model_valid(model_id@)),
    {
        !model_id.is_empty() && self.is_model_valid(model_id)
    }

    /// Whether a mode can be selected. Before the agent says what it offers, any can.
    pub fn can_select_mode(&self, mode_id: &str) -> (r: bool)
        ensures
            r == (mode_id@.len() > 0 && self@.mode_valid(mode_id@)),
    {
        !mode_id.is_empty() && self.is_mode_valid(mode_id)
    }

    /// Wants a mode. Returns whether that changes anything.
    pub fn set_desired_mode(&mut self, mode: ModeId) -> (r: bool)
        requires
            old(self).wf(),
            old(self)@.has_revisions(),
        ensures
            final(self).wf(),
            r == old(self)@.takes_mode(mode@),
            final(self)@ == old(self)@.wanting_mode(mode@),
    {
        if mode.as_str().is_empty() || !self.is_mode_valid(mode.as_str()) || is_mode(
            &self.desired_mode,
            mode.as_str(),
        ) {
            return false;
        }
        self.desired_mode = Some(mode.clone());
        if let Some(permission_mode) = PermissionMode::parse(mode.as_str()) {
            let _ = self.command_eve_policy.request_mode(permission_mode);
        }
        self.tell(AcpSessionEvent::DesiredModeChanged { mode });
        true
    }

    /// Asks for a policy before the transport is told of it. The mode is held against the permission
    /// modes, not against what the transport offers.
    pub fn request_command_eve_policy(&mut self, mode: ModeId) -> (r: Result<(), PolicyGateError>)
        requires
            old(self).wf(),
            old(self)@.has_revisions(),
        ensures
            final(self).wf(),
            r == match old(self)@.policy_fault(mode@) {
                Some(error) => Err::<(), PolicyGateError>(error),
                None => Ok::<(), PolicyGateError>(()),
            },
            final(self)@ == old(self)@.asking_policy(mode@),
    {
        let permission_mode = match PermissionMode::parse(mode.as_str()) {
            Some(permission_mode) => permission_mode,
            None => {
                self.command_eve_policy.revoke();
                return Err(PolicyGateError::UnsupportedPermissionMode);
            },
        };
        if !self.command_eve_policy.mode_available(permission_mode) {
            self.command_eve_policy.revoke();
            return Err(PolicyGateError::GuardedAutoUnavailable);
        }
        let changed = !is_mode(&self.desired_mode, mode.as_str());
        self.desired_mode = Some(mode.clone());
        let _ = self.command_eve_policy.begin_mode_change(permission_mode);
        if changed {
            self.tell(AcpSessionEvent::DesiredModeChanged { mode });
        }
        Ok(())
    }

    /// Wants a model. Returns whether that changes anything.
    pub fn set_desired_model(&mut self, model: ModelId) -> (r: bool)
        requires
            old(self).wf(),
        ensures
            final(self).wf(),
            r == old(self)@.takes_model(model@),
            final(self)@ == old(self)@.wanting_model(model@),
    {
        if model.as_str().is_empty() || !self.is_model_valid(model.as_str()) || is_model(
            &self.desired_model,
            model.as_str(),
        ) {
            return false;
        }
        self.desired_model = Some(model.clone());
        self.tell(AcpSessionEvent::DesiredModelChanged { model });
        true
    }

    /// Drops a wanted model that the agent does not offer, and returns it.
    pub fn clear_invalid_desired_model(&mut self) -> (r: Option<ModelId>)
        requires
            old(self).wf(),
        ensures
            final(self).wf(),
            model_view(r) == old(self)@.invalid_model(),
            final(self)@ == if old(self)@.invalid_model() is Some {
                SessionModel { desired_model: None, ..old(self)@ }
            } else {
                old(self)@
            },
    {
        let model = match &self.desired_model {
            Some(model) => model.clone(),
            None => {
                return None;
            },
        };
        if self.is_model_valid(model.as_str()) {
            return None;
        }
        self.desired_model = None;
        Some(model)
    }

    /// Drops a wanted mode that the agent does not offer, and returns it.
    pub fn clear_invalid_desired_mode(&mut self) -> (r: Option<ModeId>)
        requires
            old(self).wf(),
        ensures
            final(self).wf(),
            mode_view(r) == old(self)@.invalid_mode(),
            final(self)@ == if old(self)@.invalid_mode() is Some {
                SessionModel { desired_mode: None, ..old(self)@ }
            } else {
                old(self)@
            },
    {
        let mode = match &self.desired_mode {
            Some(mode) => mode.clone(),
            None => {
                return None;
            },
        };
        if self.is_mode_valid(mode.as_str()) {
            return None;
        }
        self.desired_mode = None;
        Some(mode)
    }

    /// Drops a wanted mode that names no permission mode which the runtime can run, and returns it.
    pub fn clear_invalid_command_eve_desired_mode(&mut self) -> (r: Option<ModeId>)
        requires
            old(self).wf(),
        ensures
            final(self).wf(),
            mode_view(r) == old(self)@.invalid_policy_mode(),
            final(self)@ == if old(self)@.invalid_policy_mode() is Some {
                SessionModel { desired_mode: None, ..old(self)@ }
            } else {
                old(self)@
            },
    {
        let mode = match &self.desired_mode {
            Some(mode) => mode.clone(),
            None => {
                return None;
            },
        };
        let valid = match PermissionMode::parse(mode.as_str()) {
            Some(permission_mode) => self.command_eve_policy.mode_available(permission_mode),
            None => false,
        };
        if valid {
            return None;
        }
        self.desired_mode = None;
        Some(mode)
    }

    /// Wants a configuration value.
    pub fn set_desired_config(&mut self, key: ConfigKey, value: ConfigValue)
        requires
            old(self).wf(),
        ensures
            final(self).wf(),
            final(self)@ == old(self)@.wanting_config(key@, value@),
    {
        let ghost before = self@;
        let changed = !map_holds(&self.desired_config, key.as_str(), value.as_str());
        self.desired_config.insert(key.as_str(), value.as_str().to_owned());
        assert(self@.desired_config =~= before.desired_config.insert(key@, value@));
        if changed {
            let selections = self.desired_config.duplicate();
            self.tell(AcpSessionEvent::DesiredConfigChanged { selections });
        }
    }

    /// Wants a value for the option of a category, once the agent says which options it has.
    pub fn seed_pending_startup_config(
        &mut self,
        category: SessionConfigOptionCategory,
        value: ConfigValue,
    )
        requires
            old(self).wf(),
        ensures
            final(self).wf(),
            final(self)@ == old(self)@.seeding(category@, value@),
    {
        if value.as_str().is_empty() {
            return;
        }
        let ghost held = seeds_view(self.pending_startup_config@);
        let ghost seed = SeedModel { category: category@, value: value@ };
        let mut i: usize = 0;
        while i < self.pending_startup_config.len()
            invariant
                i <= self.pending_startup_config@.len(),
                *self == *old(self),
                self.wf(),
                held == seeds_view(self.pending_startup_config@),
                seed == (SeedModel { category: category@, value: value@ }),
                forall|j: int| 0 <= j < i ==> #[trigger] held[j] != seed,
            decreases self.pending_startup_config@.len() - i,
        {
            let known = &self.pending_startup_config[i];
            assert(held[i as int] == (SeedModel {
                category: known.category@,
                value: known.value@,
            }));
            if known.category.same_as(&category) && known.value.same_as(&value) {
                return;
            }
            i = i + 1;
        }
        self.pending_startup_config.push(PendingStartupConfigSeed { category, value });
        assert(seeds_view(self.pending_startup_config@) =~= held.push(seed));
    }

    fn clear_legacy_desired_for_config_category(&mut self, category: &SessionConfigOptionCategory)
        requires
            old(self).wf(),
        ensures
            final(self).wf(),
            final(self)@ == old(self)@.without_legacy(category@),
    {
        match category {
            SessionConfigOptionCategory::Mode => {
                self.desired_mode = None;
            },
            SessionConfigOptionCategory::Model => {
                self.desired_model = None;
            },
            _ => {},
        }
    }

    fn handle_unresolved_startup_config_seed(
        &mut self,
        seed: &PendingStartupConfigSeed,
        option_was_advertised: bool,
    )
        requires
            old(self).wf(),
        ensures
            final(self).wf(),
            final(self)@ == old(self)@.unresolved(
                SeedModel { category: seed.category@, value: seed.value@ },
                option_was_advertised,
            ),
    {
        match seed.category {
            SessionConfigOptionCategory::Mode | SessionConfigOptionCategory::Model => {
                if option_was_advertised {
                    self.clear_legacy_desired_for_config_category(&seed.category);
                }
            },
            SessionConfigOptionCategory::ThoughtLevel => {
                if !option_was_advertised {
                    self.seed_pending_startup_config(seed.category.clone(), seed.value.clone());
                }
            },
            SessionConfigOptionCategory::Other(_) => {},
        }
    }

    fn resolve_seed(&mut self, seed: &PendingStartupConfigSeed) -> (r:
        PendingStartupConfigSeedResult)
        requires
            old(self).wf(),
        ensures
            final(self).wf(),
            final(self)@ == old(self)@.after_seed(
                SeedModel { category: seed.category@, value: seed.value@ },
            ),
            r@ == old(self)@.seed_result(
                SeedModel { category: seed.category@, value: seed.value@ },
            ),
    {
        let mut option_id: Option<ConfigKey> = None;
        let mut option_was_advertised = false;
        if let Some(options) = &self.config_options {
            let at = select_option_for_startup_seed(options, &seed.category);
            if at < options.len() {
                option_was_advertised = true;
                if select_option_contains_value(&options[at].kind, seed.value.as_str()) {
                    option_id = Some(ConfigKey::new(options[at].id.as_str()));
                }
            }
        }
        match option_id {
            Some(option_id) => {
                self.clear_legacy_desired_for_config_category(&seed.category);
                self.set_desired_config(option_id.clone(), seed.value.clone());
                PendingStartupConfigSeedResult::Applied {
                    category: seed.category.clone(),
                    option_id,
                }
            },
            None => {
                self.handle_unresolved_startup_config_seed(seed, option_was_advertised);
                if option_was_advertised {
                    PendingStartupConfigSeedResult::ValueNotSelectable {
                        category: seed.category.clone(),
                    }
                } else {
                    PendingStartupConfigSeedResult::OptionNotAdvertised {
                        category: seed.category.clone(),
                    }
                }
            },
        }
    }

    /// Turns the values that waited for the agent's options into wanted configuration, as far as its
    /// options allow.
    pub fn resolve_pending_startup_config_seeds(&mut self) -> (r: Vec<
        PendingStartupConfigSeedResult,
    >)
        requires
            old(self).wf(),
        ensures
            final(self).wf(),
            final(self)@ == old(self)@.unseeded().after_seeds(old(self)@.pending_seeds),
            results_view(r@) == old(self)@.unseeded().seed_results(old(self)@.pending_seeds),
    {
        let ghost start = self@.unseeded();
        let mut seeds: Vec<PendingStartupConfigSeed> = Vec::new();
        core::mem::swap(&mut seeds, &mut self.pending_startup_config);
        let ghost held = seeds_view(seeds@);
        let mut results: Vec<PendingStartupConfigSeedResult> = Vec::new();
        let mut i: usize = 0;
        proof {
            assert(seeds_view(self.pending_startup_config@) =~= Seq::<SeedModel>::empty());
            assert(self@ == start);
            assert(held.subrange(0, 0) =~= Seq::<SeedModel>::empty());
            assert(results_view(results@) =~= Seq::<SeedResultModel>::empty());
        }
        while i < seeds.len()
            invariant
                i <= seeds@.len(),
                self.wf(),
                held == seeds_view(seeds@),
                self@ == start.after_seeds(held.subrange(0, i as int)),
                results_view(results@) == start.seed_results(held.subrange(0, i as int)),
            decreases seeds@.len() - i,
        {
            let ghost upto = held.subrange(0, i + 1);
            let ghost done = results@;
            proof {
                assert(upto.drop_last() =~= held.subrange(0, i as int));
                assert(upto.last() == (SeedModel {
                    category: seeds@[i as int].category@,
                    value: seeds@[i as int].value@,
                }));
            }
            let result = self.resolve_seed(&seeds[i]);
            let ghost told = result@;
            results.push(result);
            assert(results_view(results@) =~= results_view(done).push(told));
            i = i + 1;
        }
        assert(held.subrange(0, held.len() as int) =~= held);
        results
    }
}

/// Removes the entries that set the mode, and returns the last mode that they set.
fn take_mode_selections(config: &mut TextMap<String>, options: &Vec<SessionConfigOption>) -> (r:
    Option<String>)
    requires
        old(config).wf(),
    ensures
        final(config).wf(),
        (texts_of(final(config)@), text_view(r)) == mode_migrated(
            texts_of(old(config)@),
            options@,
        ),
{
    let ghost before = texts_of(config@);
    let mut selected: Option<String> = None;
    let mut i: usize = 0;
    assert(options@.subrange(0, 0) =~= Seq::<SessionConfigOption>::empty());
    while i < options.len()
        invariant
            i <= options@.len(),
            config.wf(),
            (texts_of(config@), text_view(selected)) == mode_migrated(
                before,
                options@.subrange(0, i as int),
            ),
        decreases options@.len() - i,
    {
        let ghost upto = options@.subrange(0, i + 1);
        let ghost held = texts_of(config@);
        assert(upto.drop_last() =~= options@.subrange(0, i as int));
        if is_mode_config_option(&options[i]) {
            if let Some(value) = config.remove(options[i].id.as_str()) {
                selected = Some(value);
            }
            assert(texts_of(config@) =~= held.remove(options@[i as int].id@));
            assert(!held.dom().contains(options@[i as int].id@) ==> held.remove(
                options@[i as int].id@,
            ) =~= held);
        }
        i = i + 1;
    }
    assert(options@.subrange(0, options@.len() as int) =~= options@);
    selected
}

/// Takes over the values that options report. Returns whether that changes anything.
fn sync_config(
    config: &mut TextMap<String>,
    options: &Vec<SessionConfigOption>,
    with_mode: bool,
) -> (r: bool)
    requires
        old(config).wf(),
    ensures
        final(config).wf(),
        texts_of(final(config)@) == config_synced(texts_of(old(config)@), options@, with_mode),
        r == config_changes(texts_of(old(config)@), options@, with_mode),
{
    let ghost before = texts_of(config@);
    let mut changed = false;
    let mut i: usize = 0;
    assert(options@.subrange(0, 0) =~= Seq::<SessionConfigOption>::empty());
    while i < options.len()
        invariant
            i <= options@.len(),
            config.wf(),
            texts_of(config@) == config_synced(before, options@.subrange(0, i as int), with_mode),
            changed == config_changes(before, options@.subrange(0, i as int), with_mode),
        decreases options@.len() - i,
    {
        let ghost upto = options@.subrange(0, i + 1);
        let ghost held = texts_of(config@);
        assert(upto.drop_last() =~= options@.subrange(0, i as int));
        let option = &options[i];
        if !with_mode && is_mode_config_option(option) {
            if config.remove(option.id.as_str()).is_some() {
                changed = true;
            }
            assert(texts_of(config@) =~= held.remove(option.id@));
        } else if let SessionConfigKind::Select { current_value, options: _ } = &option.kind {
            if !map_holds(config, option.id.as_str(), current_value.as_str()) {
                changed = true;
            }
            config.insert(option.id.as_str(), current_value.clone());
            assert(texts_of(config@) =~= held.insert(option.id@, current_value@));
        }
        i = i + 1;
    }
    assert(options@.subrange(0, options@.len() as int) =~= options@);
    changed
}

/// A session as it was stored.
#[derive(Debug)]
pub struct PersistedSessionState {
    pub current_mode_id: Option<ModeId>,
    pub current_model_id: Option<ModelId>,
    pub config_selections: TextMap<String>,
    pub context_usage: Option<String>,
}

impl SessionModel {
    /// With what was stored of it. A stored mode is no word of the agent.
    pub open spec fn preloaded(
        self,
        mode: Option<Seq<char>>,
        model: Option<Seq<char>>,
        config: Map<Seq<char>, Seq<char>>,
        usage: Option<Seq<char>>,
    ) -> SessionModel {
        SessionModel {
            modes: match mode {
                Some(mode) => Some(CatalogModel { current: mode, available: Seq::empty() }),
                None => self.modes,
            },
            observed_mode: if mode is Some {
                mode
            } else {
                self.observed_mode
            },
            mode_attested: if mode is Some {
                false
            } else {
                self.mode_attested
            },
            models: match model {
                Some(model) => Some(CatalogModel { current: model, available: Seq::empty() }),
                None => self.models,
            },
            observed_model: if model is Some {
                model
            } else {
                self.observed_model
            },
            observed_config: if config.dom().len() > 0 {
                config
            } else {
                self.observed_config
            },
            context_usage: if usage is Some {
                usage
            } else {
                self.context_usage
            },
            ..self
        }
    }
}

impl AcpSession {
    /// Takes the mode out of the wanted configuration and asks for it as a policy instead.
    pub fn migrate_command_eve_mode_config_intent(&mut self) -> (r: Result<
        Option<ModeId>,
        PolicyGateError,
    >)
        requires
            old(self).wf(),
            old(self)@.has_revisions(),
        ensures
            final(self).wf(),
            final(self)@ == old(self)@.with_mode_migrated(),
            match old(self)@.configured_mode() {
                None => r matches Ok(None),
                Some(mode) => match old(self)@.policy_fault(mode) {
                    Some(error) => r == Err::<Option<ModeId>, PolicyGateError>(error),
                    None => r matches Ok(Some(migrated)) && migrated@ == mode,
                },
            },
    {
        let ghost before = self@;
        let selected = match &self.config_options {
            Some(options) => take_mode_selections(&mut self.desired_config, options),
            None => None,
        };
        let mode = match selected {
            Some(value) => ModeId::new(value.as_str()),
            None => {
                proof {
                    lemma_unmigrated(before.desired_config, before.offered_options());
                }
                return Ok(None);
            },
        };
        let selections = self.desired_config.duplicate();
        self.tell(AcpSessionEvent::DesiredConfigChanged { selections });
        match self.request_command_eve_policy(mode.clone()) {
            Ok(()) => Ok(Some(mode)),
            Err(error) => Err(error),
        }
    }
}

proof fn lemma_unmigrated(config: Map<Seq<char>, Seq<char>>, options: Seq<SessionConfigOption>)
    requires
        mode_migrated(config, options).1 is None,
    ensures
        mode_migrated(config, options).0 == config,
    decreases options.len(),
{
    if options.len() > 0 {
        lemma_unmigrated(config, options.drop_last());
    }
}

impl AcpSession {
    pub fn observed_mode(&self) -> (r: Option<&str>)
        ensures
            str_view(r) == self@.observed_mode,
    {
        match &self.observed_mode {
            Some(mode) => Some(mode.as_str()),
            None => None,
        }
    }

    pub fn observed_mode_id(&self) -> (r: Option<&ModeId>)
        ensures
            match r {
                Some(mode) => self@.observed_mode == Some(mode@),
                None => self@.observed_mode is None,
            },
    {
        match &self.observed_mode {
            Some(mode) => Some(mode),
            None => None,
        }
    }

    pub fn observed_model(&self) -> (r: Option<&str>)
        ensures
            str_view(r) == self@.observed_model,
    {
        match &self.observed_model {
            Some(model) => Some(model.as_str()),
            None => None,
        }
    }

    pub fn observed_model_id(&self) -> (r: Option<&ModelId>)
        ensures
            match r {
                Some(model) => self@.observed_model == Some(model@),
                None => self@.observed_model is None,
            },
    {
        match &self.observed_model {
            Some(model) => Some(model),
            None => None,
        }
    }

    pub fn modes(&self) -> (r: Option<&SessionModeState>)
        ensures
            match r {
                Some(modes) => self@.modes == Some(modes@),
                None => self@.modes is None,
            },
    {
        match &self.modes {
            Some(modes) => Some(modes),
            None => None,
        }
    }

    pub fn model_info(&self) -> (r: Option<&SessionModelState>)
        ensures
            match r {
                Some(models) => self@.models == Some(models@),
                None => self@.models is None,
            },
    {
        match &self.models {
            Some(models) => Some(models),
            None => None,
        }
    }

    pub fn config_options(&self) -> (r: Option<&Vec<SessionConfigOption>>)
        ensures
            match r {
                Some(options) => self@.config_options == Some(options@),
                None => self@.config_options is None,
            },
    {
        match &self.config_options {
            Some(options) => Some(options),
            None => None,
        }
    }

    pub fn context_usage(&self) -> (r: Option<&str>)
        ensures
            str_view(r) == self@.context_usage,
    {
        match &self.context_usage {
            Some(usage) => Some(usage.as_str()),
            None => None,
        }
    }

    pub fn current_mode_id(&self) -> (r: Option<String>)
        ensures
            text_view(r) == match self@.modes {
                Some(modes) => Some(modes.current),
                None => None,
            },
    {
        match &self.modes {
            Some(modes) => Some(modes.current_mode_id.clone()),
            None => None,
        }
    }

    pub fn current_model_id(&self) -> (r: Option<String>)
        ensures
            text_view(r) == match self@.models {
                Some(models) => Some(models.current),
                None => None,
            },
    {
        match &self.models {
            Some(models) => Some(models.current_model_id.clone()),
            None => None,
        }
    }

    /// The modes on offer, with another current one.
    fn modes_at(&self, mode: &str) -> (r: SessionModeState)
        ensures
            r@ == catalog_at(self@.modes, mode@),
    {
        let available_modes = match &self.modes {
            Some(modes) => clone_entries(&modes.available_modes),
            None => Vec::new(),
        };
        let r = SessionModeState { current_mode_id: mode.to_owned(), available_modes };
        assert(r@.available =~= catalog_at(self@.modes, mode@).available);
        r
    }

    fn models_at(&self, model: &str) -> (r: SessionModelState)
        ensures
            r@ == catalog_at(self@.models, model@),
    {
        let available_models = match &self.models {
            Some(models) => clone_entries(&models.available_models),
            None => Vec::new(),
        };
        let r = SessionModelState { current_model_id: model.to_owned(), available_models };
        assert(r@.available =~= catalog_at(self@.models, model@).available);
        r
    }

    fn see_mode(&mut self, mode: ModeId, modes: SessionModeState)
        requires
            old(self).wf(),
            old(self)@.has_revisions(),
        ensures
            final(self).wf(),
            final(self)@ == old(self)@.observing_mode(mode@, modes@),
    {
        let changed = !is_mode(&self.observed_mode, mode.as_str());
        self.observed_mode = Some(mode.clone());
        self.runtime_mode_attested = true;
        if let Some(permission_mode) = PermissionMode::parse(mode.as_str()) {
            let _ = self.command_eve_policy.acknowledge_runtime_mode(permission_mode);
        }
        self.modes = Some(modes);
        if changed {
            self.tell(AcpSessionEvent::ObservedModeSynced { mode });
        }
    }

    /// The agent reports its mode.
    pub fn apply_observed_mode(&mut self, mode: ModeId)
        requires
            old(self).wf(),
            old(self)@.has_revisions(),
        ensures
            final(self).wf(),
            final(self)@ == old(self)@.observing_mode(
                mode@,
                catalog_at(old(self)@.modes, mode@),
            ),
    {
        let modes = self.modes_at(mode.as_str());
        self.see_mode(mode, modes);
    }

    fn see_transport(&mut self, mode: ModeId, modes: SessionModeState) -> (r: bool)
        requires
            old(self).wf(),
        ensures
            final(self).wf(),
            r == (mode@ == "default"@),
            final(self)@ == old(self)@.observing_transport(mode@, modes@),
    {
        let safe = same_text(mode.as_str(), "default");
        if !safe {
            self.command_eve_policy.revoke();
        }
        self.observed_mode = Some(mode);
        self.modes = Some(modes);
        safe
    }

    /// The transport reports its mode. Returns whether it is the asking one.
    pub fn apply_command_eve_transport_mode(&mut self, mode: ModeId) -> (r: bool)
        requires
            old(self).wf(),
        ensures
            final(self).wf(),
            r == (mode@ == "default"@),
            final(self)@ == old(self)@.observing_transport(
                mode@,
                catalog_at(old(self)@.modes, mode@),
            ),
    {
        let modes = self.modes_at(mode.as_str());
        self.see_transport(mode, modes)
    }

    fn see_model(&mut self, model: ModelId, models: SessionModelState)
        requires
            old(self).wf(),
        ensures
            final(self).wf(),
            final(self)@ == old(self)@.observing_model(model@, models@),
    {
        let changed = !is_model(&self.observed_model, model.as_str());
        self.observed_model = Some(model.clone());
        self.models = Some(models);
        if changed {
            self.tell(AcpSessionEvent::ObservedModelSynced { model });
        }
    }

    /// The agent reports its model.
    pub fn apply_observed_model(&mut self, model: ModelId)
        requires
            old(self).wf(),
        ensures
            final(self).wf(),
            final(self)@ == old(self)@.observing_model(
                model@,
                catalog_at(old(self)@.models, model@),
            ),
    {
        let models = self.models_at(model.as_str());
        self.see_model(model, models);
    }

    /// The agent has taken a mode that the user chose.
    pub fn confirm_mode(&mut self, mode: ModeId)
        requires
            old(self).wf(),
            old(self)@.has_revisions(),
        ensures
            final(self).wf(),
            final(self)@ == (SessionModel { desired_mode: Some(mode@), ..old(self)@ }).observing_mode(
                mode@,
                catalog_at(old(self)@.modes, mode@),
            ),
    {
        self.desired_mode = Some(mode.clone());
        self.apply_observed_mode(mode);
    }

    /// The agent has taken a model that the user chose.
    pub fn confirm_model(&mut self, model: ModelId)
        requires
            old(self).wf(),
        ensures
            final(self).wf(),
            final(self)@ == (SessionModel {
                desired_model: Some(model@),
                ..old(self)@
            }).observing_model(model@, catalog_at(old(self)@.models, model@)),
    {
        self.desired_model = Some(model.clone());
        self.apply_observed_model(model);
    }

    /// The transport has taken its asking mode, so that the policy of a mode is in force.
    pub fn acknowledge_command_eve_policy(&mut self, mode: ModeId) -> (r: Option<PolicySnapshot>)
        requires
            old(self).wf(),
            old(self)@.has_revisions(),
        ensures
            final(self).wf(),
            final(self)@ == old(self)@.acknowledging_policy(mode@),
            snapshot_view(r) == if old(self)@.policy_fault(mode@) is None && old(
                self,
            )@.policy.accepts(permission_mode(mode@)->0) {
                Some(old(self)@.policy.snapshot_for(permission_mode(mode@)->0))
            } else {
                None
            },
    {
        let permission_mode = match PermissionMode::parse(mode.as_str()) {
            Some(permission_mode) => permission_mode,
            None => {
                return None;
            },
        };
        if !self.command_eve_policy.mode_available(permission_mode) {
            return None;
        }
        if !is_mode(&self.desired_mode, mode.as_str()) {
            self.desired_mode = Some(mode.clone());
            self.tell(AcpSessionEvent::DesiredModeChanged { mode });
        }
        self.command_eve_policy.acknowledge_runtime_mode(permission_mode)
    }

    /// The agent reports one configuration value.
    pub fn apply_observed_config(&mut self, key: ConfigKey, value: ConfigValue)
        requires
            old(self).wf(),
        ensures
            final(self).wf(),
            final(self)@ == old(self)@.observing_config(key@, value@),
    {
        let ghost before = self@;
        let changed = !map_holds(&self.observed_config, key.as_str(), value.as_str());
        self.observed_config.insert(key.as_str(), value.as_str().to_owned());
        assert(self@.observed_config =~= before.observed_config.insert(key@, value@));
        if changed {
            let selections = self.observed_config.duplicate();
            self.tell(AcpSessionEvent::ObservedConfigSynced { selections });
        }
    }

    /// The agent reports its modes.
    pub fn apply_advertised_modes(&mut self, modes: SessionModeState)
        requires
            old(self).wf(),
            old(self)@.has_revisions(),
        ensures
            final(self).wf(),
            final(self)@ == old(self)@.observing_mode(modes@.current, modes@),
    {
        let mode = ModeId::new(modes.current_mode_id.as_str());
        self.see_mode(mode, modes);
    }

    /// The transport reports its modes. Returns whether its mode is the asking one.
    pub fn apply_command_eve_transport_modes(&mut self, modes: SessionModeState) -> (r: bool)
        requires
            old(self).wf(),
        ensures
            final(self).wf(),
            r == (modes@.current == "default"@),
            final(self)@ == old(self)@.observing_transport(modes@.current, modes@),
    {
        let mode = ModeId::new(modes.current_mode_id.as_str());
        self.see_transport(mode, modes)
    }

    /// The agent reports its models.
    pub fn apply_advertised_models(&mut self, models: SessionModelState)
        requires
            old(self).wf(),
        ensures
            final(self).wf(),
            final(self)@ == old(self)@.observing_model(models@.current, models@),
    {
        let model = ModelId::new(models.current_model_id.as_str());
        self.see_model(model, models);
    }

    fn preserve_desired_model_in_catalog(&self, models: SessionModelState) -> (r: SessionModelState)
        ensures
            r@ == self@.preserving_model(models@),
    {
        match &self.desired_model {
            Some(desired) => if !same_text(models.current_model_id.as_str(), desired.as_str())
                && lists_id(&models.available_models, desired.as_str()) {
                SessionModelState {
                    current_model_id: desired.as_str().to_owned(),
                    available_models: models.available_models,
                }
            } else {
                models
            },
            None => models,
        }
    }

    /// The agent reports its configuration options. They are given whole, as the list that merging
    /// the reported options into those advertised before gives, together with the modes and models
    /// that follow from that list.
    pub fn apply_advertised_config_options(
        &mut self,
        options: Vec<SessionConfigOption>,
        modes: Option<SessionModeState>,
        models: Option<SessionModelState>,
    )
        requires
            old(self).wf(),
            old(self)@.has_revisions(),
        ensures
            final(self).wf(),
            final(self)@ == old(self)@.observing_options(
                options@,
                modes_view(modes),
                models_view(models),
                true,
            ),
    {
        if let Some(modes) = modes {
            self.apply_advertised_modes(modes);
        }
        self.apply_advertised_config_options_inner(options, models, true);
    }

    /// The transport reports its configuration options. They are given as the merged list, together
    /// with the models that follow from it. None of them says anything of the mode.
    pub fn apply_command_eve_advertised_config_options(
        &mut self,
        options: Vec<SessionConfigOption>,
        models: Option<SessionModelState>,
    )
        requires
            old(self).wf(),
        ensures
            final(self).wf(),
            final(self)@ == old(self)@.observing_options(
                options@,
                None,
                models_view(models),
                false,
            ),
    {
        self.apply_advertised_config_options_inner(options, models, false);
    }

    fn apply_advertised_config_options_inner(
        &mut self,
        options: Vec<SessionConfigOption>,
        models: Option<SessionModelState>,
        with_mode: bool,
    )
        requires
            old(self).wf(),
        ensures
            final(self).wf(),
            final(self)@ == old(self)@.observing_options(
                options@,
                None,
                models_view(models),
                with_mode,
            ),
    {
        if let Some(models) = models {
            let preserved = self.preserve_desired_model_in_catalog(models);
            self.apply_advertised_models(preserved);
        }
        let changed = sync_config(&mut self.observed_config, &options, with_mode);
        self.config_options = Some(options);
        if changed {
            let selections = self.observed_config.duplicate();
            self.tell(AcpSessionEvent::ObservedConfigSynced { selections });
        }
    }

    /// What the agent says it can do, as it said it.
    pub fn agent_capabilities(&self) -> (r: Option<&JsonValue>)
        ensures
            self@.capabilities == match r {
                Some(capabilities) => Some(capabilities@),
                None => None,
            },
    {
        self.agent_capabilities.as_ref()
    }

    /// The ways in which the agent lets a user sign in, as it named them.
    pub fn auth_methods(&self) -> (r: Option<&Vec<JsonValue>>)
        ensures
            self@.auth_methods == match r {
                Some(methods) => Some(json_items(methods@)),
                None => None,
            },
    {
        self.auth_methods.as_ref()
    }

    /// The commands that the agent offers, as it named them.
    pub fn available_commands(&self) -> (r: Option<&Vec<JsonValue>>)
        ensures
            self@.commands == match r {
                Some(commands) => Some(json_items(commands@)),
                None => None,
            },
    {
        self.available_commands.as_ref()
    }

    /// The agent says what it can do.
    pub fn apply_advertised_capabilities(&mut self, capabilities: JsonValue)
        requires
            old(self).wf(),
        ensures
            final(self).wf(),
            final(self)@ == (SessionModel { capabilities: Some(capabilities@), ..old(self)@ }),
    {
        self.agent_capabilities = Some(capabilities);
    }

    /// The agent names the ways in which it lets a user sign in.
    pub fn apply_advertised_auth_methods(&mut self, methods: Vec<JsonValue>)
        requires
            old(self).wf(),
        ensures
            final(self).wf(),
            final(self)@ == (SessionModel {
                auth_methods: Some(json_items(methods@)),
                ..old(self)@
            }),
    {
        self.auth_methods = Some(methods);
    }

    /// The agent names the commands that it offers.
    pub fn apply_advertised_commands(&mut self, commands: Vec<JsonValue>)
        requires
            old(self).wf(),
        ensures
            final(self).wf(),
            final(self)@ == (SessionModel { commands: Some(json_items(commands@)), ..old(self)@ }),
    {
        self.available_commands = Some(commands);
    }

    /// The agent reports how much context is used, as JSON.
    pub fn apply_context_usage(&mut self, usage_json: &str)
        requires
            old(self).wf(),
        ensures
            final(self).wf(),
            final(self)@ == if old(self)@.context_usage == Some(usage_json@) {
                old(self)@
            } else {
                (SessionModel { context_usage: Some(usage_json@), ..old(self)@ }).telling(
                    EventModel::ObservedContextUsageChanged { usage_json: usage_json@ },
                )
            },
    {
        let changed = match &self.context_usage {
            Some(usage) => !same_text(usage.as_str(), usage_json),
            None => true,
        };
        self.context_usage = Some(usage_json.to_owned());
        if changed {
            self.tell(
                AcpSessionEvent::ObservedContextUsageChanged { usage_json: usage_json.to_owned() },
            );
        }
    }

    /// Takes over what was stored of the session, before the agent has said anything.
    pub fn preload_persisted(&mut self, state: &PersistedSessionState)
        requires
            old(self).wf(),
            state.config_selections.wf(),
        ensures
            final(self).wf(),
            final(self)@ == old(self)@.preloaded(
                mode_view(state.current_mode_id),
                model_view(state.current_model_id),
                texts_of(state.config_selections@),
                text_view(state.context_usage),
            ),
    {
        if let Some(mode) = &state.current_mode_id {
            let modes = SessionModeState {
                current_mode_id: mode.as_str().to_owned(),
                available_modes: Vec::new(),
            };
            assert(modes@.available =~= Seq::<(Seq<char>, Seq<char>)>::empty());
            self.modes = Some(modes);
            self.observed_mode = Some(mode.clone());
            self.runtime_mode_attested = false;
        }
        if let Some(model) = &state.current_model_id {
            let models = SessionModelState {
                current_model_id: model.as_str().to_owned(),
                available_models: Vec::new(),
            };
            assert(models@.available =~= Seq::<(Seq<char>, Seq<char>)>::empty());
            self.models = Some(models);
            self.observed_model = Some(model.clone());
        }
        let stored: usize = state.config_selections.len();
        assert(texts_of(state.config_selections@).dom() =~= state.config_selections@.dom());
        if stored > 0 {
            self.observed_config = state.config_selections.duplicate();
        }
        if let Some(usage) = &state.context_usage {
            self.context_usage = Some(usage.clone());
        }
    }

    /// Begins a turn under the acknowledged policy, on a transport that asks.
    pub fn begin_command_eve_turn(&mut self) -> (r: Result<PolicySnapshot, PolicyGateError>)
        requires
            old(self).wf(),
        ensures
            final(self).wf(),
            gate_view(r) == old(self)@.turn_policy(),
            final(self)@ == old(self)@.in_turn(),
    {
        if !is_mode(&self.observed_mode, "default") {
            self.command_eve_policy.revoke();
            return Err(PolicyGateError::UnsafeTransportMode);
        }
        self.command_eve_policy.begin_turn()
    }

    /// The policy under which an operation of the running turn is decided.
    pub fn command_eve_permission_snapshot(&self, request_session_id: &str) -> (r: Result<
        PolicySnapshot,
        PolicyGateError,
    >)
        ensures
            gate_view(r) == self@.operation_policy(request_session_id@),
    {
        let own_session = match &self.session_id {
            Some(session_id) => same_text(session_id.as_str(), request_session_id),
            None => false,
        };
        if !own_session {
            return Err(PolicyGateError::StaleTurnPolicy);
        }
        if !is_mode(&self.observed_mode, "default") {
            return Err(PolicyGateError::UnsafeTransportMode);
        }
        self.command_eve_policy.permission_snapshot()
    }

    /// The policy in force, as long as no other one is asked for.
    pub fn command_eve_policy_snapshot(&self) -> (r: Option<PolicySnapshot>)
        ensures
            snapshot_view(r) == self@.policy.routable(),
    {
        match self.command_eve_policy.routable_snapshot() {
            Some(snapshot) => Some(snapshot.clone()),
            None => None,
        }
    }

    /// Whether a policy is in force and no other one is asked for.
    pub fn command_eve_policy_acknowledged(&self) -> (r: bool)
        ensures
            r == self@.policy.routable() is Some,
    {
        self.command_eve_policy.routable_snapshot().is_some()
    }

    /// The permission mode that is asked for and not acknowledged.
    pub fn pending_command_eve_mode(&self) -> (r: Option<PermissionMode>)
        ensures
            r == match self@.policy.pending {
                Some(pending) => Some(pending.mode),
                None => None,
            },
    {
        self.command_eve_policy.pending_mode()
    }

    /// Says whether the runtime can run a mode.
    pub fn ensure_command_eve_mode_available(&self, mode: &str) -> (r: Result<(), PolicyGateError>)
        ensures
            r == if permission_mode(mode@) == Some(PermissionMode::Guarded)
                && !self@.policy.available(PermissionMode::Guarded) {
                Err::<(), PolicyGateError>(PolicyGateError::GuardedAutoUnavailable)
            } else {
                Ok::<(), PolicyGateError>(())
            },
    {
        if let Some(PermissionMode::Guarded) = PermissionMode::parse(mode) {
            if !self.command_eve_policy.mode_available(PermissionMode::Guarded) {
                return Err(PolicyGateError::GuardedAutoUnavailable);
            }
        }
        Ok(())
    }

    /// Whether enough revisions of the policy are left for any one operation.
    pub fn has_revisions(&self) -> (r: bool)
        ensures
            r == self@.has_revisions(),
    {
        self.command_eve_policy.has_revisions()
    }

    /// Takes the events that have to be told.
    pub fn drain_events(&mut self) -> (r: Vec<AcpSessionEvent>)
        requires
            old(self).wf(),
        ensures
            final(self).wf(),
            events_view(r@) == old(self)@.events,
            final(self)@ == (SessionModel { events: Seq::empty(), ..old(self)@ }),
    {
        let mut events: Vec<AcpSessionEvent> = Vec::new();
        core::mem::swap(&mut events, &mut self.pending_events);
        assert(events_view(self.pending_events@) =~= Seq::<EventModel>::empty());
        events
    }
}

/// What a list of actions does.
pub open spec fn actions_view(actions: Seq<ReconcileAction>) -> Seq<ActionModel> {
    actions.map_values(|action: ReconcileAction| action@)
}

impl SessionModel {
    /// The actions for the mode and the model.
    pub open spec fn catalog_plan(self) -> Seq<ActionModel> {
        let mode = if self.mode_drifts() {
            seq![ActionModel::SetMode { mode: self.desired_mode->0 }]
        } else {
            Seq::empty()
        };
        let model = if self.model_drifts() {
            seq![ActionModel::SetModel { model: self.desired_model->0 }]
        } else {
            Seq::empty()
        };
        mode + model
    }

    /// The action for a configuration value.
    pub open spec fn config_action(self, key: Seq<char>) -> ActionModel {
        ActionModel::SetConfigOption { key, value: self.desired_config[key] }
    }

    /// Whether actions bring the agent in line with what the user wants: the mode first, then the
    /// model, then each configuration value that differs, once, in any order.
    pub open spec fn is_plan(self, actions: Seq<ActionModel>) -> bool {
        let first = self.catalog_plan();
        &&& first.len() <= actions.len()
        &&& actions.subrange(0, first.len() as int) == first
        &&& forall|i: int|
            first.len() <= i < actions.len() ==> exists|key: Seq<char>|
                self.config_drifts(key) && #[trigger] actions[i] == self.config_action(key)
        &&& forall|i: int, j: int|
            first.len() <= i < actions.len() && first.len() <= j < actions.len()
                && #[trigger] actions[i] == #[trigger] actions[j] ==> i == j
        &&& forall|key: Seq<char>| #[trigger]
            self.config_drifts(key) ==> actions.contains(self.config_action(key))
    }

    /// Whether the agent runs what the user wants.
    pub open spec fn aligned(self) -> bool {
        &&& !self.mode_drifts()
        &&& !self.model_drifts()
        &&& forall|key: Seq<char>| !#[trigger] self.config_drifts(key)
    }
}

/// Nothing is planned for a session exactly where the agent runs what the user wants.
pub proof fn only_a_drifted_session_is_reconciled(model: SessionModel, actions: Seq<ActionModel>)
    requires
        model.is_plan(actions),
    ensures
        actions.len() == 0 <==> model.aligned(),
{
    if model.aligned() && actions.len() > 0 {
        assert(model.catalog_plan() =~= Seq::<ActionModel>::empty());
        let key = choose|key: Seq<char>|
            model.config_drifts(key) && actions[0] == model.config_action(key);
        assert(model.config_drifts(key));
    }
    if actions.len() == 0 {
        assert forall|key: Seq<char>| !#[trigger] model.config_drifts(key) by {
            if model.config_drifts(key) {
                assert(actions.contains(model.config_action(key)));
            }
        }
    }
}

/// A stored mode is no word of the agent: it never acknowledges a policy.
pub proof fn stored_mode_acknowledges_nothing(
    model: SessionModel,
    mode: Seq<char>,
    stored_model: Option<Seq<char>>,
    config: Map<Seq<char>, Seq<char>>,
    usage: Option<Seq<char>>,
    session_id: Seq<char>,
)
    requires
        model.session_id is None,
    ensures
        ({
            let after = model.preloaded(Some(mode), stored_model, config, usage);
            &&& after.policy == model.policy
            &&& after.assigned(session_id).policy.acknowledged is None
        }),
{
}

/// A transport in any mode but the asking one takes the policy back, so that no turn runs.
pub proof fn unsafe_transport_revokes_the_policy(
    model: SessionModel,
    mode: Seq<char>,
    modes: CatalogModel,
)
    requires
        mode != "default"@,
    ensures
        model.observing_transport(mode, modes).policy.routable() is None,
        model.observing_transport(mode, modes).turn_policy() == Err::<
            SnapshotModel,
            PolicyGateError,
        >(PolicyGateError::UnsafeTransportMode),
{
}

/// Assigning the session id a second time changes nothing.
pub proof fn session_id_is_assigned_once(
    model: SessionModel,
    session_id: Seq<char>,
    other: Seq<char>,
)
    ensures
        model.assigned(session_id).assigned(other) == model.assigned(session_id),
{
}

/// Seeding the same value for a category a second time changes nothing.
pub proof fn seeding_is_idempotent(model: SessionModel, category: CategoryModel, value: Seq<char>)
    ensures
        model.seeding(category, value).seeding(category, value) == model.seeding(category, value),
{
    let once = model.seeding(category, value);
    if value.len() > 0 && !model.pending_seeds.contains(SeedModel { category, value }) {
        assert(once.pending_seeds[model.pending_seeds.len() as int] == (SeedModel {
            category,
            value,
        }));
    }
}

impl AcpSession {
    /// What has to be done for the agent to run what the user wants.
    pub fn plan_reconcile(&self) -> (r: Vec<ReconcileAction>)
        requires
            self.wf(),
        ensures
            self@.is_plan(actions_view(r@)),
    {
        let mut actions: Vec<ReconcileAction> = Vec::new();
        if let Some(desired_mode) = &self.desired_mode {
            let in_force = match self.command_eve_policy.routable_snapshot() {
                Some(policy) => same_text(policy.mode.as_str(), desired_mode.as_str()) && is_mode(
                    &self.observed_mode,
                    "default",
                ),
                None => false,
            };
            let available = match PermissionMode::parse(desired_mode.as_str()) {
                Some(mode) => self.command_eve_policy.mode_available(mode),
                None => true,
            };
            if !in_force && !is_mode(&self.observed_mode, desired_mode.as_str()) && available {
                actions.push(ReconcileAction::SetMode { mode: desired_mode.clone() });
            }
        }
        if let Some(desired_model) = &self.desired_model {
            if !is_model(&self.observed_model, desired_model.as_str()) {
                actions.push(ReconcileAction::SetModel { model: desired_model.clone() });
            }
        }
        let ghost first = self@.catalog_plan();
        assert(actions_view(actions@) =~= first);
        let keys = self.desired_config.keys();
        let mut i: usize = 0;
        while i < keys.len()
            invariant
                self.wf(),
                i <= keys@.len(),
                first == self@.catalog_plan(),
                first.len() <= actions@.len(),
                actions_view(actions@).subrange(0, first.len() as int) == first,
                forall|a: int, b: int|
                    0 <= a < keys@.len() && 0 <= b < keys@.len() && (#[trigger] keys@[a])@ == (
                    #[trigger] keys@[b])@ ==> a == b,
                forall|k: int|
                    0 <= k < keys@.len() ==> self.desired_config@.dom().contains(
                        (#[trigger] keys@[k])@,
                    ),
                forall|j: int|
                    first.len() <= j < actions@.len() ==> exists|k: int|
                        0 <= k < i && self@.config_drifts((#[trigger] keys@[k])@)
                            && #[trigger] actions_view(actions@)[j] == self@.config_action(
                            keys@[k]@,
                        ),
                forall|a: int, b: int|
                    first.len() <= a < actions@.len() && first.len() <= b < actions@.len()
                        && #[trigger] actions_view(actions@)[a] == #[trigger] actions_view(
                        actions@,
                    )[b] ==> a == b,
                forall|k: int| #![trigger keys@[k]]
                    0 <= k < i && self@.config_drifts(keys@[k]@) ==> actions_view(
                        actions@,
                    ).contains(self@.config_action(keys@[k]@)),
            decreases keys@.len() - i,
        {
            let key = keys[i].as_str();
            let ghost before = actions_view(actions@);
            if let Some(value) = self.desired_config.get(key) {
                if !map_holds(&self.observed_config, key, value.as_str()) {
                    let ghost action = self@.config_action(key@);
                    actions.push(
                        ReconcileAction::SetConfigOption {
                            key: ConfigKey::new(key),
                            value: ConfigValue::new(value.as_str()),
                        },
                    );
                    proof {
                        let after = actions_view(actions@);
                        assert(after =~= before.push(action));
                        assert(after.subrange(0, first.len() as int) =~= before.subrange(
                            0,
                            first.len() as int,
                        ));
                        assert(self@.config_drifts(keys@[i as int]@));
                        assert forall|j: int| first.len() <= j < actions@.len() implies exists|k: int|
                            0 <= k < i + 1 && self@.config_drifts((#[trigger] keys@[k])@)
                                && #[trigger] after[j] == self@.config_action(keys@[k]@) by {
                            if j < before.len() {
                                assert(after[j] == before[j]);
                                let k = choose|k: int|
                                    0 <= k < i && self@.config_drifts((#[trigger] keys@[k])@)
                                        && before[j] == self@.config_action(keys@[k]@);
                                assert(after[j] == self@.config_action(keys@[k]@));
                            } else {
                                assert(after[j] == self@.config_action(keys@[i as int]@));
                            }
                        }
                        assert forall|a: int, b: int|
                            first.len() <= a < actions@.len() && first.len() <= b < actions@.len()
                                && #[trigger] after[a] == #[trigger] after[b] implies a == b by {
                            if a < before.len() && b < before.len() {
                                assert(before[a] == before[b]);
                            } else if a < before.len() {
                                let k = choose|k: int|
                                    0 <= k < i && self@.config_drifts((#[trigger] keys@[k])@)
                                        && before[a] == self@.config_action(keys@[k]@);
                                assert(keys@[k]@ == keys@[i as int]@);
                            } else if b < before.len() {
                                let k = choose|k: int|
                                    0 <= k < i && self@.config_drifts((#[trigger] keys@[k])@)
                                        && before[b] == self@.config_action(keys@[k]@);
                                assert(keys@[k]@ == keys@[i as int]@);
                            }
                        }
                        assert forall|k: int| #![trigger keys@[k]]
                            0 <= k < i + 1 && self@.config_drifts(
                                keys@[k]@,
                            ) implies after.contains(self@.config_action(keys@[k]@)) by {
                            if k < i {
                                let at = choose|at: int|
                                    0 <= at < before.len() && before[at] == self@.config_action(
                                        keys@[k]@,
                                    );
                                assert(after[at] == before[at]);
                            } else {
                                assert(after[before.len() as int] == action);
                            }
                        }
                    }
                }
            }
            i = i + 1;
        }
        proof {
            let all = actions_view(actions@);
            assert forall|j: int| first.len() <= j < all.len() implies exists|key: Seq<char>|
                self@.config_drifts(key) && #[trigger] all[j] == self@.config_action(key) by {
                let k = choose|k: int|
                    0 <= k < keys@.len() && self@.config_drifts((#[trigger] keys@[k])@) && all[j]
                        == self@.config_action(keys@[k]@);
                assert(self@.config_drifts(keys@[k]@));
            }
            assert forall|key: Seq<char>| #[trigger] self@.config_drifts(key) implies all.contains(
                self@.config_action(key),
            ) by {
                assert(self.desired_config@.dom().contains(key));
                let k = choose|k: int| 0 <= k < keys@.len() && (#[trigger] keys@[k])@ == key;
                assert(self@.config_drifts(keys@[k]@));
            }
        }
        actions
    }
}

/// A configuration option as it is shown.
#[derive(Debug, PartialEq, Eq)]
pub struct ConfigSnapshotOption {
    pub id: String,
    pub category: Option<String>,
    pub current_value: Option<String>,
}

/// A shown option, as text.
pub struct ShownConfigOption {
    pub id: Seq<char>,
    pub category: Option<Seq<char>>,
    pub current: Option<Seq<char>>,
}

/// The configuration of a session as it is shown.
#[derive(Debug, PartialEq, Eq)]
pub struct ConfigSnapshot {
    pub options: Vec<ConfigSnapshotOption>,
}

impl View for ConfigSnapshot {
    type V = Seq<ShownConfigOption>;

    open spec fn view(&self) -> Seq<ShownConfigOption> {
        self.options@.map_values(
            |option: ConfigSnapshotOption|
                ShownConfigOption {
                    id: option.id@,
                    category: text_view(option.category),
                    current: text_view(option.current_value),
                },
        )
    }
}

/// The name of a category.
pub open spec fn category_name(category: CategoryModel) -> Seq<char> {
    match category {
        CategoryModel::Mode => "mode"@,
        CategoryModel::Model => "model"@,
        CategoryModel::ThoughtLevel => "thought_level"@,
        CategoryModel::Other(name) => name,
    }
}

fn category_string(category: &SessionConfigOptionCategory) -> (r: String)
    ensures
        r@ == category_name(category@),
{
    match category {
        SessionConfigOptionCategory::Mode => "mode".to_owned(),
        SessionConfigOptionCategory::Model => "model".to_owned(),
        SessionConfigOptionCategory::ThoughtLevel => "thought_level".to_owned(),
        SessionConfigOptionCategory::Other(name) => name.clone(),
    }
}

/// An option as it is shown. The mode is that of the acknowledged policy, where there is one.
pub open spec fn shown_option(option: ShownConfigOption, policy: Option<SnapshotModel>) -> ShownConfigOption {
    if policy is Some && (option.id == "mode"@ || option.category == Some("mode"@)) {
        ShownConfigOption { current: Some(mode_name(policy->0.mode)), ..option }
    } else {
        option
    }
}

impl SessionModel {
    /// The options that the agent reports. One that does not report any has its mode and its model
    /// shown as options.
    pub open spec fn reported_options(self) -> Seq<ShownConfigOption> {
        match self.config_options {
            Some(options) => options.map_values(
                |option: SessionConfigOption|
                    ShownConfigOption {
                        id: option.id@,
                        category: match option.about() {
                            Some(category) => Some(category_name(category)),
                            None => None,
                        },
                        current: option.kind.selected(),
                    },
            ),
            None => {
                let mode = match self.modes {
                    Some(modes) => seq![
                        ShownConfigOption {
                            id: "mode"@,
                            category: Some("mode"@),
                            current: Some(modes.current),
                        },
                    ],
                    None => Seq::empty(),
                };
                let model = match self.models {
                    Some(models) => seq![
                        ShownConfigOption {
                            id: "model"@,
                            category: Some("model"@),
                            current: Some(models.current),
                        },
                    ],
                    None => Seq::empty(),
                };
                mode + model
            },
        }
    }

    /// The configuration as it is shown.
    pub open spec fn shown_config(self) -> Seq<ShownConfigOption> {
        self.reported_options().map_values(
            |option: ShownConfigOption| shown_option(option, self.policy.acknowledged),
        )
    }
}

/// The position of an option among those shown; behind the last where it is not there.
pub open spec fn shown_index(options: Seq<ShownConfigOption>, id: Seq<char>) -> nat
    decreases options.len(),
{
    if options.len() == 0 || options[0].id == id {
        0
    } else {
        1 + shown_index(options.drop_first(), id)
    }
}

impl ConfigSnapshot {
    /// The value of an option.
    pub fn option_current(&self, id: &str) -> (r: Option<String>)
        ensures
            text_view(r) == if shown_index(self@, id@) < self@.len() {
                self@[shown_index(self@, id@) as int].current
            } else {
                None
            },
    {
        let ghost held = self@;
        let mut i: usize = 0;
        assert(held.subrange(0, held.len() as int) =~= held);
        while i < self.options.len()
            invariant
                i <= self.options@.len(),
                held == self@,
                held.len() == self.options@.len(),
                shown_index(held, id@) == i + shown_index(
                    held.subrange(i as int, held.len() as int),
                    id@,
                ),
            decreases self.options@.len() - i,
        {
            let ghost rest = held.subrange(i as int, held.len() as int);
            assert(rest[0] == held[i as int]);
            if same_text(self.options[i].id.as_str(), id) {
                return match &self.options[i].current_value {
                    Some(value) => Some(value.clone()),
                    None => None,
                };
            }
            assert(rest.drop_first() =~= held.subrange(i + 1, held.len() as int));
            i = i + 1;
        }
        None
    }
}

impl AcpSession {
    /// The configuration as it is shown.
    pub fn config_snapshot(&self) -> (r: ConfigSnapshot)
        ensures
            r@ == self@.shown_config(),
    {
        let policy_mode = match self.command_eve_policy.acknowledged() {
            Some(policy) => Some(policy.mode),
            None => None,
        };
        let ghost reported = self@.reported_options();
        let mut options: Vec<ConfigSnapshotOption> = Vec::new();
        match &self.config_options {
            Some(own) => {
                let mut i: usize = 0;
                while i < own.len()
                    invariant
                        i <= own@.len(),
                        reported == self@.reported_options(),
                        self@.config_options == Some(own@),
                        reported.len() == own@.len(),
                        options@.len() == i,
                        forall|j: int|
                            0 <= j < i ==> (#[trigger] options@[j]).id@ == reported[j].id
                                && text_view(options@[j].category) == reported[j].category
                                && text_view(options@[j].current_value) == reported[j].current,
                    decreases own@.len() - i,
                {
                    options.push(
                        ConfigSnapshotOption {
                            id: own[i].id.clone(),
                            category: match &own[i].category {
                                Some(category) => Some(category_string(category)),
                                None => None,
                            },
                            current_value: match &own[i].kind {
                                SessionConfigKind::Select { current_value, options: _ } => Some(
                                    current_value.clone(),
                                ),
                                SessionConfigKind::Other => None,
                            },
                        },
                    );
                    i = i + 1;
                }
            },
            None => {
                if let Some(modes) = &self.modes {
                    options.push(
                        ConfigSnapshotOption {
                            id: "mode".to_owned(),
                            category: Some("mode".to_owned()),
                            current_value: Some(modes.current_mode_id.clone()),
                        },
                    );
                }
                if let Some(models) = &self.models {
                    options.push(
                        ConfigSnapshotOption {
                            id: "model".to_owned(),
                            category: Some("model".to_owned()),
                            current_value: Some(models.current_model_id.clone()),
                        },
                    );
                }
            },
        }
        let ghost plain = options@;
        if let Some(mode) = policy_mode {
            let mut i: usize = 0;
            while i < options.len()
                invariant
                    i <= options@.len(),
                    options@.len() == plain.len(),
                    plain.len() == reported.len(),
                    self@.policy.acknowledged is Some,
                    mode == self@.policy.acknowledged->0.mode,
                    forall|j: int|
                        0 <= j < plain.len() ==> (#[trigger] plain[j]).id@ == reported[j].id
                            && text_view(plain[j].category) == reported[j].category && text_view(
                            plain[j].current_value,
                        ) == reported[j].current,
                    forall|j: int| i <= j < options@.len() ==> #[trigger] options@[j] == plain[j],
                    forall|j: int|
                        0 <= j < i ==> (ShownConfigOption {
                            id: (#[trigger] options@[j]).id@,
                            category: text_view(options@[j].category),
                            current: text_view(options@[j].current_value),
                        }) == shown_option(reported[j], self@.policy.acknowledged),
                decreases options@.len() - i,
            {
                assert(options@[i as int] == plain[i as int]);
                let is_mode_option = same_text(options[i].id.as_str(), "mode")
                    || match &options[i].category {
                    Some(category) => same_text(category.as_str(), "mode"),
                    None => false,
                };
                if is_mode_option {
                    options[i].current_value = Some(mode.as_str().to_owned());
                }
                i = i + 1;
            }
        }
        let r = ConfigSnapshot { options };
        assert(r@ =~= self@.shown_config());
        r
    }
}

/// What an agent reports is what is observed: of every option that it names, the value selected in
/// its last report, whatever was observed before. Where the mode does not count, nothing is observed
/// of an option that sets it. A key that no option names keeps what was observed.
pub proof fn report_replaces_what_was_observed(
    config: Map<Seq<char>, Seq<char>>,
    options: Seq<SessionConfigOption>,
    with_mode: bool,
    at: int,
    key: Seq<char>,
)
    ensures
        ({
            let synced = config_synced(config, options, with_mode);
            let last_word = 0 <= at < options.len() && options[at].id@ == key && forall|i: int|
                at < i < options.len() ==> (#[trigger] options[i]).id@ != key;
            let about_mode = key == "mode"@ || options[at].about() == Some(CategoryModel::Mode);
            &&& last_word && (with_mode || !about_mode) && options[at].kind is Select
                ==> synced.dom().contains(key) && Some(synced[key]) == options[at].kind.selected()
            &&& last_word && !with_mode && about_mode ==> !synced.dom().contains(key)
            &&& (forall|i: int| 0 <= i < options.len() ==> (#[trigger] options[i]).id@ != key) ==> (
            synced.dom().contains(key) == config.dom().contains(key) && (config.dom().contains(key)
                ==> synced[key] == config[key]))
        }),
    decreases options.len(),
{
    if options.len() > 0 {
        let front = options.drop_last();
        report_replaces_what_was_observed(config, front, with_mode, at, key);
        assert forall|i: int| 0 <= i < front.len() implies #[trigger] front[i] == options[i] by {}
        assert(options[options.len() - 1] == options.last());
    }
}

/// The value that an agent selects for an option is the one that its report carries.
pub proof fn selected_value_is_the_reported_one(option: SessionConfigOption)
    ensures
        option.kind matches SessionConfigKind::Select { current_value, options } ==> option.kind.selected()
            == Some(current_value@),
        option.kind is Other ==> option.kind.selected() is None,
        option.sets_mode() <==> option.id@ == "mode"@ || (option.category is Some
            && option.category->0@ == CategoryModel::Mode),
{
}

/// A report of options with distinct ids is told exactly where it changes what is observed.
pub proof fn change_of_the_report_is_told(
    config: Map<Seq<char>, Seq<char>>,
    options: Seq<SessionConfigOption>,
    with_mode: bool,
)
    requires
        forall|i: int, j: int|
            0 <= i < j < options.len() ==> (#[trigger] options[i]).id@ != (
            #[trigger] options[j]).id@,
    ensures
        config_changes(config, options, with_mode) <==> config_synced(config, options, with_mode)
            != config,
    decreases options.len(),
{
    if options.len() > 0 {
        let front = options.drop_last();
        let last = options.last();
        assert forall|i: int, j: int| 0 <= i < j < front.len() implies (#[trigger] front[i]).id@ != (
        #[trigger] front[j]).id@ by {
            assert(front[i] == options[i] && front[j] == options[j]);
        }
        change_of_the_report_is_told(config, front, with_mode);
        assert forall|i: int| 0 <= i < front.len() implies (#[trigger] front[i]).id@ != last.id@ by {
            assert(front[i] == options[i]);
            assert(options[options.len() - 1] == last);
        }
        report_replaces_what_was_observed(config, front, with_mode, 0, last.id@);
        let before = config_synced(config, front, with_mode);
        let after = config_synced(config, options, with_mode);
        if config_changes(config, front, with_mode) {
            if after == config {
                assert forall|key: Seq<char>| #[trigger] before.dom().contains(key) == config.dom().contains(
                    key,
                ) by {
                    assert(after.dom().contains(key) == config.dom().contains(key));
                }
                assert forall|key: Seq<char>| #[trigger] config.dom().contains(key) implies before[key]
                    == config[key] by {
                    if key != last.id@ {
                        assert(after[key] == config[key]);
                    }
                }
                assert(before =~= config);
            }
        } else {
            assert(before == config);
            if after == config {
            } else {
                assert(!(after =~= config));
            }
            if !with_mode && last.sets_mode() {
                if !config.dom().contains(last.id@) {
                    assert(config.remove(last.id@) =~= config);
                } else {
                    assert(!after.dom().contains(last.id@));
                }
            } else if last.kind.selected() is Some {
                let value = last.kind.selected()->0;
                if config.dom().contains(last.id@) && config[last.id@] == value {
                    assert(config.insert(last.id@, value) =~= config);
                } else {
                    assert(after.dom().contains(last.id@) && after[last.id@] == value);
                }
            }
        }
    }
}

/// A report of options: it is kept whole, and it is what is observed. It changes nothing of what the
/// user wants, and an option that is reported at its wanted value, and no later in the list
/// otherwise, does not drift.
pub proof fn reported_options_are_observed(
    model: SessionModel,
    options: Seq<SessionConfigOption>,
    modes: Option<CatalogModel>,
    models: Option<CatalogModel>,
    with_mode: bool,
    at: int,
)
    ensures
        ({
            let after = model.observing_options(options, modes, models, with_mode);
            &&& after.config_options == Some(options)
            &&& after.observed_config == config_synced(model.observed_config, options, with_mode)
            &&& after.desired_config == model.desired_config
            &&& after.desired_mode == model.desired_mode
            &&& after.desired_model == model.desired_model
            &&& after.session_id == model.session_id
            &&& config_changes(model.observed_config, options, with_mode) ==> after.events.len() > 0
                && after.events.last() == (EventModel::ObservedConfigSynced {
                selections: after.observed_config,
            })
            &&& modes is None && models is None && !config_changes(
                model.observed_config,
                options,
                with_mode,
            ) ==> after.events == model.events
            &&& !with_mode || modes is None ==> after.policy == model.policy && after.observed_mode
                == model.observed_mode && after.mode_attested == model.mode_attested
            &&& with_mode && modes is Some ==> after.observed_mode == Some(modes->0.current)
                && after.modes == modes && after.mode_attested
            &&& models is None ==> after.observed_model == model.observed_model && after.models
                == model.models
            &&& models is Some && (model.desired_model is None || !models->0.lists(
                model.desired_model->0,
            )) ==> after.observed_model == Some(models->0.current) && after.models == models
            &&& models is Some && model.desired_model is Some && models->0.lists(
                model.desired_model->0,
            ) ==> after.observed_model == model.desired_model
            &&& 0 <= at < options.len() && (with_mode || !options[at].sets_mode())
                && options[at].kind is Select && model.desired_config.dom().contains(
                options[at].id@,
            ) && options[at].kind.selected() == Some(model.desired_config[options[at].id@]) && (
            forall|i: int| at < i < options.len() ==> (#[trigger] options[i]).id@ != options[at].id@)
                ==> !after.config_drifts(options[at].id@)
        }),
{
    if 0 <= at < options.len() {
        report_replaces_what_was_observed(
            model.observed_config,
            options,
            with_mode,
            at,
            options[at].id@,
        );
    }
}

/// What the user wants: a mode is wanted from then on where it is named, offered, and not wanted
/// already; so is a model; a configuration value always is. Each change is told once, with the new
/// value, and nothing that was observed changes.
pub proof fn wanted_values_are_kept(
    model: SessionModel,
    mode: Seq<char>,
    wanted_model: Seq<char>,
    key: Seq<char>,
    value: Seq<char>,
    other: Seq<char>,
)
    requires
        other != key,
    ensures
        ({
            let offered = model.modes is None || model.modes->0.available.len() == 0
                || model.modes->0.lists(mode);
            let after = model.wanting_mode(mode);
            let taken = mode.len() > 0 && offered && model.desired_mode != Some(mode);
            &&& !taken ==> after == model
            &&& taken ==> {
                &&& after.desired_mode == Some(mode)
                &&& after.events == model.events.push(EventModel::DesiredModeChanged { mode })
                &&& permission_mode(mode) is None ==> after.policy == model.policy
                &&& permission_mode(mode) is Some ==> after.policy == model.policy.requested(
                    permission_mode(mode)->0,
                )
            }
            &&& after.observed_mode == model.observed_mode
            &&& after.desired_model == model.desired_model
            &&& after.desired_config == model.desired_config
            &&& after.observed_config == model.observed_config
        }),
        ({
            let offered = model.models is None || model.models->0.available.len() == 0
                || model.models->0.lists(wanted_model);
            let after = model.wanting_model(wanted_model);
            let taken = wanted_model.len() > 0 && offered && model.desired_model != Some(
                wanted_model,
            );
            &&& !taken ==> after == model
            &&& taken ==> after.desired_model == Some(wanted_model) && after.events
                == model.events.push(EventModel::DesiredModelChanged { model: wanted_model })
            &&& after.observed_model == model.observed_model
            &&& after.desired_mode == model.desired_mode
            &&& after.policy == model.policy
        }),
        ({
            let after = model.wanting_config(key, value);
            let known = model.desired_config.dom().contains(key) && model.desired_config[key]
                == value;
            &&& after.desired_config.dom().contains(key) && after.desired_config[key] == value
            &&& after.desired_config.dom().contains(other) == model.desired_config.dom().contains(
                other,
            )
            &&& model.desired_config.dom().contains(other) ==> after.desired_config[other]
                == model.desired_config[other]
            &&& after.events == if known {
                model.events
            } else {
                model.events.push(
                    EventModel::DesiredConfigChanged { selections: after.desired_config },
                )
            }
            &&& after.observed_config == model.observed_config
            &&& after.desired_mode == model.desired_mode
            &&& after.desired_model == model.desired_model
        }),
{
}

/// A catalog lists the ids of its entries, and offers them; one without entries offers every id.
pub proof fn catalog_offers_its_entries(catalog: CatalogModel, id: Seq<char>, at: int)
    ensures
        0 <= at < catalog.available.len() && catalog.available[at].0 == id ==> catalog.lists(id)
            && catalog.offers(id),
        catalog.available.len() > 0 && (forall|i: int|
            0 <= i < catalog.available.len() ==> (#[trigger] catalog.available[i]).0 != id)
            ==> !catalog.lists(id) && !catalog.offers(id),
        catalog.available.len() == 0 ==> catalog.offers(id) && !catalog.lists(id),
{
}

/// What the agent reports of its mode, its model and one value is observed as it reports it, and told
/// where it is new. A reported mode counts as the agent's word. The transport's report is no such
/// word and is not told; any mode but the asking one takes every policy back.
pub proof fn reports_are_observed(
    model: SessionModel,
    mode: Seq<char>,
    modes: CatalogModel,
    current: Seq<char>,
    models: CatalogModel,
    key: Seq<char>,
    value: Seq<char>,
)
    ensures
        ({
            let after = model.observing_mode(mode, modes);
            &&& after.observed_mode == Some(mode)
            &&& after.modes == Some(modes)
            &&& after.mode_attested
            &&& after.events == if model.observed_mode == Some(mode) {
                model.events
            } else {
                model.events.push(EventModel::ObservedModeSynced { mode })
            }
            &&& permission_mode(mode) is None ==> after.policy == model.policy
            &&& permission_mode(mode) is Some ==> after.policy == model.policy.acknowledging(
                permission_mode(mode)->0,
            )
            &&& after.desired_mode == model.desired_mode
        }),
        ({
            let after = model.observing_transport(mode, modes);
            &&& after.observed_mode == Some(mode)
            &&& after.modes == Some(modes)
            &&& after.mode_attested == model.mode_attested
            &&& after.events == model.events
            &&& mode == "default"@ ==> after.policy == model.policy
            &&& mode != "default"@ ==> after.policy.acknowledged is None
                && after.policy.pending is None && after.policy.active_turn is None
            &&& after.desired_mode == model.desired_mode
        }),
        ({
            let after = model.observing_model(current, models);
            &&& after.observed_model == Some(current)
            &&& after.models == Some(models)
            &&& after.events == if model.observed_model == Some(current) {
                model.events
            } else {
                model.events.push(EventModel::ObservedModelSynced { model: current })
            }
            &&& after.policy == model.policy
            &&& after.desired_model == model.desired_model
        }),
        ({
            let after = model.observing_config(key, value);
            let known = model.observed_config.dom().contains(key) && model.observed_config[key]
                == value;
            &&& after.observed_config == model.observed_config.insert(key, value)
            &&& after.events == if known {
                model.events
            } else {
                model.events.push(
                    EventModel::ObservedConfigSynced {
                        selections: model.observed_config.insert(key, value),
                    },
                )
            }
            &&& after.desired_config == model.desired_config
        }),
{
}

/// A session id is taken once and told. It begins a session of the policy: only a mode that the agent
/// itself reported can be in force in it, and a wanted mode that is not is asked for. Giving it up
/// takes back the policy, the agent's word and the opening, and keeps what the user wants.
pub proof fn session_id_begins_the_policy(model: SessionModel, session_id: Seq<char>)
    requires
        model.session_id is None,
        model.policy.next_revision < u64::MAX - 1,
    ensures
        ({
            let after = model.assigned(session_id);
            let wanted = match model.desired_mode {
                Some(mode) => permission_mode(mode),
                None => None,
            };
            &&& after.session_id == Some(session_id)
            &&& after.events == model.events.push(EventModel::SessionAssigned { session_id })
            &&& !model.mode_attested ==> after.policy.acknowledged is None
            &&& after.policy.active_turn is None
            &&& after.policy.acknowledged is Some ==> model.observed_mode is Some
                && permission_mode(model.observed_mode->0) == Some(
                after.policy.acknowledged->0.mode,
            )
            &&& wanted is None ==> after.policy.pending is None
            &&& wanted is Some ==> (after.policy.acknowledged is Some
                && after.policy.acknowledged->0.mode == wanted->0 && after.policy.pending is None)
                || (after.policy.pending is Some && after.policy.pending->0.mode == wanted->0)
            &&& after.desired_mode == model.desired_mode
            &&& after.observed_mode == model.observed_mode
        }),
        ({
            let after = model.unassigned();
            &&& after.session_id is None
            &&& !after.opened
            &&& !after.mode_attested
            &&& after.close_reason is None
            &&& after.policy.acknowledged is None && after.policy.pending is None
                && after.policy.active_turn is None
            &&& after.desired_mode == model.desired_mode
            &&& after.desired_model == model.desired_model
            &&& after.desired_config == model.desired_config
            &&& after.events == model.events
        }),
{
}

/// Where a seed goes: to the first option of its category; where there is none, to the first that is
/// known by another name of it; where there is none either, nowhere.
pub proof fn seed_goes_to_its_option(
    options: Seq<SessionConfigOption>,
    category: CategoryModel,
    at: int,
)
    ensures
        0 <= at < options.len() && options[at].about() == Some(category) && (forall|i: int|
            0 <= i < at ==> (#[trigger] options[i]).about() != Some(category)) ==> seeded(
            options,
            category,
        ) == at,
        (forall|i: int|
            0 <= i < options.len() ==> (#[trigger] options[i]).about() != Some(category)) && 0 <= at
            < options.len() && is_alias(category, options[at].id@) && (forall|i: int|
            0 <= i < at ==> !is_alias(category, (#[trigger] options[i]).id@)) ==> seeded(
            options,
            category,
        ) == at,
        (forall|i: int|
            0 <= i < options.len() ==> (#[trigger] options[i]).about() != Some(category)
                && !is_alias(category, options[i].id@)) ==> seeded(options, category)
            == options.len(),
        forall|id: Seq<char>|
            #![trigger is_alias(CategoryModel::Mode, id)]
            is_alias(CategoryModel::Mode, id) <==> id == "mode"@ || id == "modes"@,
        forall|id: Seq<char>|
            #![trigger is_alias(CategoryModel::Model, id)]
            is_alias(CategoryModel::Model, id) <==> id == "model"@ || id == "models"@,
        forall|id: Seq<char>|
            #![trigger is_alias(CategoryModel::ThoughtLevel, id)]
            is_alias(CategoryModel::ThoughtLevel, id) <==> id == "thought_level"@ || id
                == "reasoning_effort"@ || id == "effort"@ || id == "thinking_budget"@ || id
                == "thinking"@,
{
    let n = options.len() as int;
    if forall|i: int| 0 <= i < n ==> (#[trigger] options[i]).about() != Some(category) {
        lemma_categorized(options, category, n);
        if 0 <= at < n && is_alias(category, options[at].id@) && (forall|i: int|
            0 <= i < at ==> !is_alias(category, (#[trigger] options[i]).id@)) {
            lemma_aliased(options, category, at);
        }
        if forall|i: int| 0 <= i < n ==> !is_alias(category, (#[trigger] options[i]).id@) {
            lemma_aliased(options, category, n);
        }
    }
    if 0 <= at < n && options[at].about() == Some(category) && (forall|i: int|
        0 <= i < at ==> (#[trigger] options[i]).about() != Some(category)) {
        lemma_categorized(options, category, at);
    }
}

/// What becomes of a seed. One whose option can select its value makes that the wanted value of the
/// option, in the place of a mode or model wanted the old way. Where the agent has no such option, a
/// mode or a model stays wanted the old way and a thought level waits on; where the value cannot be
/// selected, a mode or a model is no longer wanted the old way, and a thought level is given up.
pub proof fn seed_becomes_what_is_wanted(model: SessionModel, seed: SeedModel, at: int)
    requires
        model.config_options is Some ==> at == seeded(model.config_options->0, seed.category),
    ensures
        ({
            let options = model.config_options->0;
            let offered = model.config_options is Some && at < options.len();
            let selectable = offered && options[at].kind.selects(seed.value);
            let after = model.after_seed(seed);
            &&& selectable ==> {
                &&& model.seed_result(seed) == SeedResultModel::Applied {
                    category: seed.category,
                    option_id: options[at].id@,
                }
                &&& after.desired_config.dom().contains(options[at].id@)
                &&& after.desired_config[options[at].id@] == seed.value
                &&& seed.category == CategoryModel::Mode ==> after.desired_mode is None
                &&& seed.category != CategoryModel::Mode ==> after.desired_mode
                    == model.desired_mode
                &&& seed.category == CategoryModel::Model ==> after.desired_model is None
                &&& seed.category != CategoryModel::Model ==> after.desired_model
                    == model.desired_model
                &&& after.pending_seeds == model.pending_seeds
            }
            &&& !offered ==> {
                &&& model.seed_result(seed) == SeedResultModel::OptionNotAdvertised {
                    category: seed.category,
                }
                &&& after.desired_mode == model.desired_mode
                &&& after.desired_model == model.desired_model
                &&& after.desired_config == model.desired_config
                &&& seed.category == CategoryModel::ThoughtLevel && seed.value.len() > 0
                    ==> after.pending_seeds.contains(seed)
                &&& seed.category != CategoryModel::ThoughtLevel ==> after.pending_seeds
                    == model.pending_seeds
            }
            &&& offered && !selectable ==> {
                &&& model.seed_result(seed) == SeedResultModel::ValueNotSelectable {
                    category: seed.category,
                }
                &&& after.desired_config == model.desired_config
                &&& after.pending_seeds == model.pending_seeds
                &&& seed.category == CategoryModel::Mode ==> after.desired_mode is None
                &&& seed.category != CategoryModel::Mode ==> after.desired_mode
                    == model.desired_mode
                &&& seed.category == CategoryModel::Model ==> after.desired_model is None
                &&& seed.category != CategoryModel::Model ==> after.desired_model
                    == model.desired_model
            }
            &&& after.observed_config == model.observed_config
            &&& after.policy == model.policy
        }),
{
    if model.config_options is None || at >= model.config_options->0.len() {
        if seed.category == CategoryModel::ThoughtLevel && seed.value.len() > 0 {
            let after = model.after_seed(seed);
            if !model.pending_seeds.contains(seed) {
                assert(after.pending_seeds[after.pending_seeds.len() - 1] == seed);
            }
        }
    }
}

/// Which values an option can select: those of its list, or those of any of its groups.
pub proof fn option_selects_its_values(kind: SessionConfigKind, value: Seq<char>)
    ensures
        kind is Other ==> !kind.selects(value),
        kind matches SessionConfigKind::Select { current_value, options } ==> match options {
            SessionConfigSelectOptions::Ungrouped(values) => kind.selects(value) <==> exists|i: int|
                0 <= i < values@.len() && (#[trigger] values@[i])@ == value,
            SessionConfigSelectOptions::Grouped(groups) => kind.selects(value) <==> exists|
                g: int,
                i: int,
            |
                0 <= g < groups@.len() && 0 <= i < groups@[g]@.len() && (#[trigger] groups@[g]@[i])@
                    == value,
        },
{
    if let SessionConfigKind::Select { current_value, options } = kind {
        if let SessionConfigSelectOptions::Grouped(groups) = options {
            if exists|g: int, i: int|
                0 <= g < groups@.len() && 0 <= i < groups@[g]@.len() && (#[trigger] groups@[g]@[i])@
                    == value {
                let (g, i) = choose|g: int, i: int|
                    0 <= g < groups@.len() && 0 <= i < groups@[g]@.len() && (
                    #[trigger] groups@[g]@[i])@ == value;
                assert(holds_value(groups@[g]@, value));
            }
            if kind.selects(value) {
                let g = choose|g: int|
                    0 <= g < groups@.len() && holds_value((#[trigger] groups@[g])@, value);
                let i = choose|i: int|
                    0 <= i < groups@[g]@.len() && (#[trigger] groups@[g]@[i])@ == value;
                assert(groups@[g]@[i]@ == value);
            }
        }
    }
}

/// Taking the mode out of a wanted configuration leaves no value of an option that sets the mode,
/// keeps every other value, and finds a mode exactly where there was such a value.
pub proof fn mode_is_taken_out_of_the_configuration(
    config: Map<Seq<char>, Seq<char>>,
    options: Seq<SessionConfigOption>,
    key: Seq<char>,
)
    ensures
        ({
            let (kept, mode) = mode_migrated(config, options);
            let about_mode = exists|i: int|
                0 <= i < options.len() && (#[trigger] options[i]).sets_mode() && options[i].id@
                    == key;
            &&& about_mode ==> !kept.dom().contains(key)
            &&& !about_mode ==> kept.dom().contains(key) == config.dom().contains(key) && (
            config.dom().contains(key) ==> kept[key] == config[key])
            &&& about_mode && config.dom().contains(key) ==> mode is Some
            &&& mode is Some ==> exists|i: int|
                0 <= i < options.len() && (#[trigger] options[i]).sets_mode()
                    && config.dom().contains(options[i].id@) && config[options[i].id@] == mode->0
        }),
    decreases options.len(),
{
    if options.len() > 0 {
        let front = options.drop_last();
        let last = options.last();
        mode_is_taken_out_of_the_configuration(config, front, key);
        mode_is_taken_out_of_the_configuration(config, front, last.id@);
        assert forall|i: int| 0 <= i < front.len() implies #[trigger] front[i] == options[i] by {}
        assert(options[options.len() - 1] == last);
        let (kept, mode) = mode_migrated(config, options);
        let (before, selected) = mode_migrated(config, front);
        let was = exists|i: int|
            0 <= i < front.len() && (#[trigger] front[i]).sets_mode() && front[i].id@ == key;
        let is = exists|i: int|
            0 <= i < options.len() && (#[trigger] options[i]).sets_mode() && options[i].id@ == key;
        if was {
            let i = choose|i: int|
                0 <= i < front.len() && (#[trigger] front[i]).sets_mode() && front[i].id@ == key;
            assert(options[i].sets_mode() && options[i].id@ == key);
        }
        if is && !was {
            let i = choose|i: int|
                0 <= i < options.len() && (#[trigger] options[i]).sets_mode() && options[i].id@
                    == key;
            if i < front.len() {
                assert(front[i].sets_mode() && front[i].id@ == key);
            }
        }
        if mode is Some && !(last.sets_mode() && before.dom().contains(last.id@)) {
            let i = choose|i: int|
                0 <= i < front.len() && (#[trigger] front[i]).sets_mode() && config.dom().contains(
                    front[i].id@,
                ) && config[front[i].id@] == selected->0;
            assert(options[i].sets_mode());
        }
    }
}

/// Asking for a policy on the transport: a name of a mode that the runtime can run becomes the wanted
/// mode and is asked for; any other takes back every policy and leaves what the user wants.
pub proof fn policy_is_asked_by_name(model: SessionModel, mode: Seq<char>)
    ensures
        ({
            let after = model.asking_policy(mode);
            let fault = model.policy_fault(mode);
            let named = permission_mode(mode);
            &&& named is None ==> fault == Some(PolicyGateError::UnsupportedPermissionMode)
            &&& named == Some(PermissionMode::Guarded) && !model.policy.capabilities.complete()
                ==> fault == Some(PolicyGateError::GuardedAutoUnavailable)
            &&& named is Some && (named != Some(PermissionMode::Guarded)
                || model.policy.capabilities.complete()) ==> fault is None
            &&& fault is Some ==> after.policy.acknowledged is None && after.policy.pending is None
                && after.policy.active_turn is None && after.desired_mode == model.desired_mode
                && after.events == model.events
            &&& fault is None ==> after.desired_mode == Some(mode) && after.policy
                == model.policy.changing(named->0) && after.events == if model.desired_mode == Some(
                mode,
            ) {
                model.events
            } else {
                model.events.push(EventModel::DesiredModeChanged { mode })
            }
        }),
        ({
            let after = model.acknowledging_policy(mode);
            let fault = model.policy_fault(mode);
            &&& fault is Some ==> after == model
            &&& fault is None ==> after.desired_mode == Some(mode) && after.policy
                == model.policy.acknowledging(permission_mode(mode)->0)
        }),
{
}

/// A turn begins, and an operation of this very session is decided, only on a transport in the asking
/// mode; otherwise the turn takes every policy back.
pub proof fn turns_need_the_asking_transport(model: SessionModel, session_id: Seq<char>)
    ensures
        model.observed_mode == Some("default"@) ==> model.turn_policy() == model.policy.turn_policy()
            && model.in_turn().policy == model.policy.in_turn(),
        model.observed_mode != Some("default"@) ==> model.turn_policy() == Err::<
            SnapshotModel,
            PolicyGateError,
        >(PolicyGateError::UnsafeTransportMode) && model.in_turn().policy.acknowledged is None
            && model.in_turn().policy.pending is None && model.in_turn().policy.active_turn is None,
        model.session_id != Some(session_id) ==> model.operation_policy(session_id) is Err,
        model.session_id == Some(session_id) && model.observed_mode == Some("default"@)
            ==> model.operation_policy(session_id) == model.policy.operation_policy(),
        model.observed_mode != Some("default"@) ==> model.operation_policy(session_id) is Err,
{
}

/// What has to be set: a wanted mode that the agent does not report, unless it is the policy in force
/// on a transport in the asking mode, and where the runtime can run it; a wanted model that the agent
/// does not report; a wanted value that the agent does not report.
pub proof fn drift_is_what_the_agent_does_not_report(model: SessionModel, key: Seq<char>)
    ensures
        model.desired_mode is None ==> !model.mode_drifts(),
        model.desired_mode is Some && model.observed_mode == model.desired_mode
            ==> !model.mode_drifts(),
        model.desired_mode is Some && model.observed_mode != model.desired_mode && permission_mode(
            model.desired_mode->0,
        ) is None && model.policy.acknowledged is None ==> model.mode_drifts(),
        model.desired_mode is Some && model.observed_mode != model.desired_mode && permission_mode(
            model.desired_mode->0,
        ) == Some(PermissionMode::DontAsk) && model.policy.acknowledged is None
            ==> model.mode_drifts(),
        model.desired_mode is Some && model.policy.pending is None && model.policy.acknowledged
            is Some && model.observed_mode == Some("default"@) && mode_name(
            model.policy.acknowledged->0.mode,
        ) == model.desired_mode->0 ==> !model.mode_drifts(),
        model.desired_mode is Some && permission_mode(model.desired_mode->0) == Some(
            PermissionMode::Guarded,
        ) && !model.policy.capabilities.complete() ==> !model.mode_drifts(),
        model.desired_mode is Some && model.observed_mode != model.desired_mode && (
        model.policy.pending is Some || model.observed_mode != Some("default"@)) && permission_mode(
            model.desired_mode->0,
        ) != Some(PermissionMode::Guarded) ==> model.mode_drifts(),
        model.model_drifts() <==> model.desired_model is Some && (model.observed_model is None
            || model.observed_model->0 != model.desired_model->0),
        model.config_drifts(key) <==> model.desired_config.dom().contains(key) && (
        !model.observed_config.dom().contains(key) || model.observed_config[key]
            != model.desired_config[key]),
{
}

/// A plan sets what drifts, to what is wanted, and nothing else: the mode, then the model, then each
/// value once.
pub proof fn plan_sets_what_is_wanted(model: SessionModel, actions: Seq<ActionModel>, at: int)
    requires
        model.is_plan(actions),
        0 <= at < actions.len(),
    ensures
        match actions[at] {
            ActionModel::SetMode { mode } => at == 0 && model.mode_drifts() && model.desired_mode
                == Some(mode),
            ActionModel::SetModel { model: wanted } => at <= 1 && model.model_drifts()
                && model.desired_model == Some(wanted),
            ActionModel::SetConfigOption { key, value } => model.config_drifts(key)
                && model.desired_config.dom().contains(key) && model.desired_config[key] == value,
        },
        model.mode_drifts() ==> actions[0] == (ActionModel::SetMode {
            mode: model.desired_mode->0,
        }),
        model.model_drifts() ==> actions.contains(
            ActionModel::SetModel { model: model.desired_model->0 },
        ),
{
    let first = model.catalog_plan();
    if at < first.len() {
        assert(actions[at] == actions.subrange(0, first.len() as int)[at]);
    } else {
        let key = choose|key: Seq<char>|
            model.config_drifts(key) && actions[at] == model.config_action(key);
    }
    if model.mode_drifts() {
        assert(actions[0] == actions.subrange(0, first.len() as int)[0]);
    }
    if model.model_drifts() {
        let i = first.len() - 1;
        assert(actions[i] == actions.subrange(0, first.len() as int)[i]);
    }
}

/// What is shown of the configuration: every option that the agent reports, in its order, with the
/// value that it reports; the mode as the acknowledged policy has it, where there is one.
pub proof fn shown_configuration_is_the_reported_one(
    model: SessionModel,
    options: Seq<SessionConfigOption>,
    at: int,
)
    requires
        model.config_options == Some(options),
        0 <= at < options.len(),
    ensures
        ({
            let shown = model.shown_config();
            let about_mode = options[at].id@ == "mode"@ || options[at].about() == Some(
                CategoryModel::Mode,
            );
            &&& shown.len() == options.len()
            &&& shown[at].id == options[at].id@
            &&& !about_mode && (options[at].about() matches Some(CategoryModel::Other(name)) ==> name
                != "mode"@) ==> shown[at].current == options[at].kind.selected()
            &&& about_mode && model.policy.acknowledged is Some ==> shown[at].current == Some(
                mode_name(model.policy.acknowledged->0.mode),
            )
            &&& model.policy.acknowledged is None ==> shown[at].current
                == options[at].kind.selected()
        }),
{
    reveal_strlit("mode");
    reveal_strlit("model");
    reveal_strlit("thought_level");
    assert("mode"@.len() == 4 && "model"@.len() == 5 && "thought_level"@.len() == 13);
}

/// Of an agent that reports no options the mode and the model are shown as options, with what the
/// agent currently has.
pub proof fn mode_and_model_are_shown_as_options(model: SessionModel)
    requires
        model.config_options is None,
        model.policy.acknowledged is None,
    ensures
        model.modes is Some ==> model.shown_config().len() > 0 && model.shown_config()[0].id
            == "mode"@ && model.shown_config()[0].current == Some(model.modes->0.current),
        model.models is Some ==> model.shown_config().len() > 0 && model.shown_config().last().id
            == "model"@ && model.shown_config().last().current == Some(model.models->0.current),
        model.modes is None && model.models is None ==> model.shown_config().len() == 0,
{
}

/// What was stored of a session is observed until the agent says otherwise, and wanted by nobody: it
/// changes neither what the user wants nor the policy, and tells nothing.
pub proof fn stored_state_is_observed_only(
    model: SessionModel,
    mode: Option<Seq<char>>,
    stored_model: Option<Seq<char>>,
    config: Map<Seq<char>, Seq<char>>,
    usage: Option<Seq<char>>,
)
    ensures
        ({
            let after = model.preloaded(mode, stored_model, config, usage);
            &&& mode is Some ==> after.observed_mode == mode && after.modes is Some
                && after.modes->0.current == mode->0 && !after.mode_attested
            &&& mode is None ==> after.observed_mode == model.observed_mode && after.modes
                == model.modes
            &&& stored_model is Some ==> after.observed_model == stored_model && after.models is Some
                && after.models->0.current == stored_model->0
            &&& stored_model is None ==> after.observed_model == model.observed_model
                && after.models == model.models
            &&& usage is Some ==> after.context_usage == usage
            &&& usage is None ==> after.context_usage == model.context_usage
            &&& config.dom().len() > 0 ==> after.observed_config == config
            &&& after.desired_mode == model.desired_mode
            &&& after.desired_model == model.desired_model
            &&& after.desired_config == model.desired_config
            &&& after.policy == model.policy
            &&& after.events == model.events
            &&& after.session_id == model.session_id
        }),
{
}

/// What is wanted and not offered: a mode or a model that the agent's catalog does not offer, and a
/// mode that names no policy that the runtime can run.
pub proof fn unavailable_wishes(model: SessionModel)
    ensures
        model.invalid_mode() is Some <==> model.desired_mode is Some && model.modes is Some
            && model.modes->0.available.len() > 0 && !model.modes->0.lists(model.desired_mode->0),
        model.invalid_mode() is Some ==> model.invalid_mode() == model.desired_mode,
        model.invalid_model() is Some <==> model.desired_model is Some && model.models is Some
            && model.models->0.available.len() > 0 && !model.models->0.lists(
            model.desired_model->0,
        ),
        model.invalid_model() is Some ==> model.invalid_model() == model.desired_model,
        model.invalid_policy_mode() is Some <==> model.desired_mode is Some && (permission_mode(
            model.desired_mode->0,
        ) is None || permission_mode(model.desired_mode->0) == Some(PermissionMode::Guarded)
            && !model.policy.capabilities.complete()),
        model.invalid_policy_mode() is Some ==> model.invalid_policy_mode() == model.desired_mode,
{
}

/// Seeds are taken one after the other, from the first to the last.
pub proof fn seeds_are_taken_in_order(
    model: SessionModel,
    first: Seq<SeedModel>,
    rest: Seq<SeedModel>,
    seed: SeedModel,
)
    ensures
        model.after_seeds(Seq::empty()) == model,
        model.after_seeds(seq![seed]) == model.after_seed(seed),
        model.seed_results(seq![seed]) == seq![model.seed_result(seed)],
        model.after_seeds(first + rest) == model.after_seeds(first).after_seeds(rest),
        model.seed_results(first + rest) == model.seed_results(first) + model.after_seeds(
            first,
        ).seed_results(rest),
    decreases rest.len(),
{
    let one = seq![seed];
    assert(one.drop_last() =~= Seq::<SeedModel>::empty());
    assert(model.after_seeds(one.drop_last()) == model);
    assert(model.seed_results(one.drop_last()) =~= Seq::empty());
    assert(model.seed_results(one) =~= seq![model.seed_result(seed)]);
    if rest.len() == 0 {
        assert(first + rest =~= first);
        assert(model.seed_results(first) + Seq::empty() =~= model.seed_results(first));
    } else {
        let all = first + rest;
        assert(all.drop_last() =~= first + rest.drop_last());
        assert(all.last() == rest.last());
        seeds_are_taken_in_order(model, first, rest.drop_last(), seed);
        assert(model.seed_results(all) =~= model.seed_results(first) + model.after_seeds(
            first,
        ).seed_results(rest));
    }
}

/// Of several wanted values that set the mode, that of the option which comes last counts.
pub proof fn last_option_sets_the_mode(
    config: Map<Seq<char>, Seq<char>>,
    options: Seq<SessionConfigOption>,
    at: int,
)
    requires
        0 <= at < options.len(),
        options[at].sets_mode(),
        config.dom().contains(options[at].id@),
        forall|i: int| 0 <= i < at ==> (#[trigger] options[i]).id@ != options[at].id@,
        forall|i: int|
            at < i < options.len() ==> !(#[trigger] options[i]).sets_mode()
                || !config.dom().contains(options[i].id@),
    ensures
        mode_migrated(config, options).1 == Some(config[options[at].id@]),
    decreases options.len(),
{
    let front = options.drop_last();
    let last = options.last();
    mode_is_taken_out_of_the_configuration(config, front, last.id@);
    assert forall|i: int| 0 <= i < front.len() implies #[trigger] front[i] == options[i] by {}
    if at == options.len() - 1 {
        if exists|i: int|
            0 <= i < front.len() && (#[trigger] front[i]).sets_mode() && front[i].id@ == last.id@ {
            let i = choose|i: int|
                0 <= i < front.len() && (#[trigger] front[i]).sets_mode() && front[i].id@
                    == last.id@;
            assert(options[i].id@ != last.id@);
        }
    } else {
        last_option_sets_the_mode(config, front, at);
        assert(options[options.len() - 1] == last);
    }
}

/// Taking the mode out of the wanted configuration asks for it as a policy, and where the
/// configuration sets none nothing changes.
pub proof fn configured_mode_becomes_a_policy(model: SessionModel)
    ensures
        ({
            let options = if model.config_options is Some {
                model.config_options->0
            } else {
                Seq::empty()
            };
            let (config, mode) = mode_migrated(model.desired_config, options);
            let after = model.with_mode_migrated();
            &&& model.configured_mode() == mode
            &&& mode is None ==> after == model
            &&& mode is Some ==> {
                let named = permission_mode(mode->0);
                let runs = named is Some && (named->0 is Guarded
                    ==> model.policy.capabilities.complete());
                &&& after.desired_config == config
                &&& after.events.len() > model.events.len()
                &&& after.events[model.events.len() as int] == (EventModel::DesiredConfigChanged {
                    selections: config,
                })
                &&& runs ==> after.desired_mode == mode && after.policy == model.policy.changing(
                    named->0,
                )
                &&& !runs ==> after.desired_mode == model.desired_mode && after.policy.acknowledged
                    is None && after.policy.pending is None && after.policy.active_turn is None
            }
        }),
{
}

/// A new session starts under the policy that the agent was seen to run, where its word counts and
/// the runtime has shown who it is.
pub proof fn attested_mode_is_in_force_from_the_start(model: SessionModel, session_id: Seq<char>)
    requires
        model.session_id is None,
        model.policy.next_revision < u64::MAX - 1,
        model.mode_attested,
        model.policy.runtime_receipt is Some,
        model.observed_mode is Some,
        permission_mode(model.observed_mode->0) is Some,
        permission_mode(model.observed_mode->0) != Some(PermissionMode::Guarded)
            || model.policy.capabilities.complete(),
    ensures
        ({
            let after = model.assigned(session_id);
            &&& after.policy.acknowledged is Some
            &&& Some(after.policy.acknowledged->0.mode) == permission_mode(model.observed_mode->0)
            &&& after.policy.session_epoch >= model.policy.session_epoch
            &&& after.policy.session_epoch > 0
        }),
{
}

/// Nothing is known of a new session but what the user wants.
pub proof fn new_session_knows_only_what_is_wanted(
    mode: Option<Seq<char>>,
    model: Option<Seq<char>>,
    config: Map<Seq<char>, Seq<char>>,
)
    ensures
        ({
            let session = initial_session(mode, model, config);
            &&& session.desired_mode == mode
            &&& session.desired_model == model
            &&& session.desired_config == config
            &&& session.session_id is None && !session.opened && !session.mode_attested
            &&& session.observed_mode is None && session.observed_model is None
            &&& session.modes is None && session.models is None && session.config_options is None
            &&& session.observed_config.dom() =~= Set::<Seq<char>>::empty()
            &&& session.pending_seeds.len() == 0 && session.events.len() == 0
            &&& session.policy.acknowledged is None && session.policy.pending is None
                && session.policy.active_turn is None && session.policy.runtime_receipt is None
            &&& !session.policy.capabilities.complete()
            &&& session.close_reason is None && !session.config_set_in_flight
        }),
{
}

/// A value is seeded once and at the end of those before it; an empty one is not.
pub proof fn seed_waits_behind_the_others(
    model: SessionModel,
    category: CategoryModel,
    value: Seq<char>,
)
    ensures
        ({
            let after = model.seeding(category, value);
            let seed = SeedModel { category, value };
            &&& value.len() == 0 ==> after == model
            &&& value.len() > 0 ==> after.pending_seeds.contains(seed)
            &&& value.len() > 0 && !model.pending_seeds.contains(seed) ==> after.pending_seeds
                == model.pending_seeds.push(seed)
            &&& model.pending_seeds.contains(seed) ==> after == model
            &&& after.desired_config == model.desired_config && after.events == model.events
        }),
{
    let seed = SeedModel { category, value };
    if value.len() > 0 && !model.pending_seeds.contains(seed) {
        let after = model.pending_seeds.push(seed);
        assert(after[after.len() - 1] == seed);
    }
}

/// A value is shown under the first option of its name, and each category under its own name.
pub proof fn shown_value_is_that_of_its_option(
    options: Seq<ShownConfigOption>,
    id: Seq<char>,
    at: int,
    name: Seq<char>,
)
    requires
        0 <= at <= options.len(),
        forall|i: int| 0 <= i < at ==> (#[trigger] options[i]).id != id,
        at < options.len() ==> options[at].id == id,
    ensures
        shown_index(options, id) == at,
        category_name(CategoryModel::Mode) == "mode"@,
        category_name(CategoryModel::Model) == "model"@,
        category_name(CategoryModel::ThoughtLevel) == "thought_level"@,
        category_name(CategoryModel::Other(name)) == name,
    decreases at,
{
    if at > 0 {
        let rest = options.drop_first();
        assert forall|i: int| 0 <= i < at - 1 implies (#[trigger] rest[i]).id != id by {
            assert(rest[i] == options[i + 1]);
        }
        assert(options[0].id != id);
        shown_value_is_that_of_its_option(rest, id, at - 1, name);
    }
}

/// Why an operation has no policy: a session that is not its own comes first, then a transport that
/// is not asking, and then what the policy says.
pub proof fn operation_of_another_session_is_stale(model: SessionModel, session_id: Seq<char>)
    ensures
        model.session_id != Some(session_id) ==> model.operation_policy(session_id) == Err::<
            SnapshotModel,
            PolicyGateError,
        >(PolicyGateError::StaleTurnPolicy),
        model.session_id == Some(session_id) && model.observed_mode != Some("default"@)
            ==> model.operation_policy(session_id) == Err::<SnapshotModel, PolicyGateError>(
            PolicyGateError::UnsafeTransportMode,
        ),
{
}

} // verus!
