//! The registry of agent processes: what is stored of a process, when an entry may be removed, and
//! by what a process is known again before it is signalled.
use vstd::prelude::*;
use vstd::utf8::encode_utf8;

use crate::error::{AgentError, AgentErrorKind};
use crate::outside::{hex_encode, hex_text, is_lower_hex, is_uuid_text, sha256, sha256_digest};
use crate::permission_authority::clone_text;
use crate::text::{
    begins_with, begins_with_text, char_lists, chars_of, concat, contains, contains_text,
    copy_range, decimal, decimal_string, decimal_text_reads_back, lemma_no_words, lemma_words_before_separators, lower,
    lower_all, lower_chars, number_of, occurs_at, occurs_chars_at, parse_number, push_all,
    same_text, split_words, string_of, strip_prefix, strip_text_prefix, text_view, trim, trim_chars,
    words, Separator,
};

verus! {

pub const AGENT_PROCESS_REGISTRY_RELATIVE_PATH: &'static str = "runtime/agent-process-registry.json";

pub const AGENT_PROCESS_REGISTRY_FALLBACK_RELATIVE_DIR: &'static str =
    ".command-eve-agent-process-registry-emergency-v2";

pub const AGENT_PROCESS_REGISTRY_EXTERNAL_FALLBACK_DIR_NAME: &'static str =
    "command-eve-agent-process-registry-emergency-v3";

/// The version in which the registry is written.
pub const PROCESS_REGISTRY_VERSION: u32 = 2;

pub const EXTERNAL_EVIDENCE_KEY_DOMAIN: &'static str =
    "command-eve-agent-process-registry-external-key/v1";

/// What kind of failure an operation on process evidence ended with.
#[derive(Debug, Clone, Copy, PartialEq, Eq, Structural)]
pub enum EvidenceErrorKind {
    InvalidData,
    Unsupported,
}

/// A failure of an operation on process evidence.
#[derive(Debug)]
pub struct EvidenceError {
    kind: EvidenceErrorKind,
    message: String,
}

impl View for EvidenceError {
    type V = (EvidenceErrorKind, Seq<char>);

    closed spec fn view(&self) -> (EvidenceErrorKind, Seq<char>) {
        (self.kind, self.message@)
    }
}

impl EvidenceError {
    fn invalid(message: &str) -> (r: Self)
        ensures
            r@ == (EvidenceErrorKind::InvalidData, message@),
    {
        EvidenceError { kind: EvidenceErrorKind::InvalidData, message: message.to_owned() }
    }

    pub fn kind(&self) -> (r: EvidenceErrorKind)
        ensures
            r == self@.0,
    {
        self.kind
    }

    pub fn message(&self) -> (r: &str)
        ensures
            r@ == self@.1,
    {
        self.message.as_str()
    }
}

/// When a process started, by the clock that `kind` names.
#[derive(Debug, PartialEq, Eq)]
pub struct ProcessStartTime {
    pub kind: String,
    pub value: String,
}

/// By what a process is known again.
#[derive(Debug, PartialEq, Eq)]
pub struct ProcessIdentity {
    pub platform: String,
    pub start_time: ProcessStartTime,
    pub parent_pid: u32,
    pub executable_path: String,
}

/// The identity of a process, as text.
pub struct IdentityModel {
    pub platform: Seq<char>,
    pub start_kind: Seq<char>,
    pub start_value: Seq<char>,
    pub parent_pid: u32,
    pub executable_path: Seq<char>,
}

impl View for ProcessIdentity {
    type V = IdentityModel;

    open spec fn view(&self) -> IdentityModel {
        IdentityModel {
            platform: self.platform@,
            start_kind: self.start_time.kind@,
            start_value: self.start_time.value@,
            parent_pid: self.parent_pid,
            executable_path: self.executable_path@,
        }
    }
}

impl Clone for ProcessIdentity {
    fn clone(&self) -> (r: Self)
        ensures
            r@ == self@,
    {
        ProcessIdentity {
            platform: self.platform.clone(),
            start_time: ProcessStartTime {
                kind: self.start_time.kind.clone(),
                value: self.start_time.value.clone(),
            },
            parent_pid: self.parent_pid,
            executable_path: self.executable_path.clone(),
        }
    }
}

/// The identity of an optional value, as text.
pub open spec fn identity_view(identity: Option<ProcessIdentity>) -> Option<IdentityModel> {
    match identity {
        Some(identity) => Some(identity@),
        None => None,
    }
}

/// A copy of an optional identity.
pub fn clone_identity(identity: &Option<ProcessIdentity>) -> (r: Option<ProcessIdentity>)
    ensures
        identity_view(r) == identity_view(*identity),
{
    match identity {
        Some(identity) => Some(identity.clone()),
        None => None,
    }
}

fn same_identity(a: &Option<ProcessIdentity>, b: &Option<ProcessIdentity>) -> (r: bool)
    ensures
        r == (identity_view(*a) == identity_view(*b)),
{
    match (a, b) {
        (Some(a), Some(b)) => same_text(a.platform.as_str(), b.platform.as_str()) && same_text(
            a.start_time.kind.as_str(),
            b.start_time.kind.as_str(),
        ) && same_text(a.start_time.value.as_str(), b.start_time.value.as_str()) && a.parent_pid
            == b.parent_pid && same_text(a.executable_path.as_str(), b.executable_path.as_str()),
        (None, None) => true,
        _ => false,
    }
}

impl IdentityModel {
    /// Whether both are the same birth: a process of the same platform that started at the same
    /// time. Only such a process may be signalled in the place of the other.
    pub open spec fn same_birth(self, other: IdentityModel) -> bool {
        self.platform == other.platform && self.start_kind == other.start_kind && self.start_value
            == other.start_value
    }
}

/// Whether a process may be signalled as the one that is expected.
pub fn same_signal_authority(expected: &ProcessIdentity, observed: &ProcessIdentity) -> (r: bool)
    ensures
        r == expected@.same_birth(observed@),
{
    same_text(expected.platform.as_str(), observed.platform.as_str()) && same_text(
        expected.start_time.kind.as_str(),
        observed.start_time.kind.as_str(),
    ) && same_text(expected.start_time.value.as_str(), observed.start_time.value.as_str())
}

/// What is stored of a process.
#[derive(Debug, PartialEq, Eq)]
pub struct RegisteredAgentProcess {
    pub pid: u32,
    pub process_group_id: Option<u32>,
    pub conversation_id: String,
    pub agent_type: String,
    pub backend: Option<String>,
    pub command_preview: Option<String>,
    pub registered_at_ms: u64,
    pub process_identity: Option<ProcessIdentity>,
}

/// What is stored of a process, as text.
pub struct ProcessModel {
    pub pid: u32,
    pub process_group_id: Option<u32>,
    pub conversation_id: Seq<char>,
    pub agent_type: Seq<char>,
    pub backend: Option<Seq<char>>,
    pub command_preview: Option<Seq<char>>,
    pub registered_at_ms: u64,
    pub identity: Option<IdentityModel>,
}

impl View for RegisteredAgentProcess {
    type V = ProcessModel;

    open spec fn view(&self) -> ProcessModel {
        ProcessModel {
            pid: self.pid,
            process_group_id: self.process_group_id,
            conversation_id: self.conversation_id@,
            agent_type: self.agent_type@,
            backend: text_view(self.backend),
            command_preview: text_view(self.command_preview),
            registered_at_ms: self.registered_at_ms,
            identity: identity_view(self.process_identity),
        }
    }
}

impl Clone for RegisteredAgentProcess {
    fn clone(&self) -> (r: Self)
        ensures
            r@ == self@,
    {
        RegisteredAgentProcess {
            pid: self.pid,
            process_group_id: self.process_group_id,
            conversation_id: self.conversation_id.clone(),
            agent_type: self.agent_type.clone(),
            backend: clone_text(&self.backend),
            command_preview: clone_text(&self.command_preview),
            registered_at_ms: self.registered_at_ms,
            process_identity: clone_identity(&self.process_identity),
        }
    }
}

impl ProcessModel {
    /// Without the command, which may hold credentials.
    pub open spec fn scrubbed(self) -> ProcessModel {
        ProcessModel { command_preview: None, ..self }
    }

    /// Whether the entry is the one of this registration.
    pub open spec fn is_registration(
        self,
        pid: u32,
        registered_at_ms: u64,
        identity: Option<IdentityModel>,
    ) -> bool {
        self.pid == pid && self.registered_at_ms == registered_at_ms && self.identity == identity
    }
}

/// What is stored of a list of processes.
pub open spec fn processes_view(processes: Seq<RegisteredAgentProcess>) -> Seq<ProcessModel> {
    processes.map_values(|process: RegisteredAgentProcess| process@)
}

/// The registry of processes.
#[derive(Debug, PartialEq, Eq)]
pub struct ProcessRegistry {
    pub version: u32,
    pub processes: Vec<RegisteredAgentProcess>,
}

/// What the registry holds.
pub struct RegistryContents {
    pub version: u32,
    pub processes: Seq<ProcessModel>,
}

impl View for ProcessRegistry {
    type V = RegistryContents;

    open spec fn view(&self) -> RegistryContents {
        RegistryContents { version: self.version, processes: processes_view(self.processes@) }
    }
}

impl RegistryContents {
    /// With a process registered, in the place of every earlier one of the same pid.
    pub open spec fn registered(self, entry: ProcessModel) -> RegistryContents {
        RegistryContents {
            version: PROCESS_REGISTRY_VERSION,
            processes: self.processes.filter(
                |existing: ProcessModel| existing.pid != entry.pid,
            ).push(entry),
        }
    }

    /// Without the entries of a registration.
    pub open spec fn unregistered(
        self,
        pid: u32,
        registered_at_ms: u64,
        identity: Option<IdentityModel>,
    ) -> RegistryContents {
        RegistryContents {
            processes: self.processes.filter(
                |existing: ProcessModel| !existing.is_registration(pid, registered_at_ms, identity),
            ),
            ..self
        }
    }

    /// As it is written: without any command.
    pub open spec fn scrubbed(self) -> RegistryContents {
        RegistryContents {
            processes: self.processes.map_values(|process: ProcessModel| process.scrubbed()),
            ..self
        }
    }
}

/// A late removal of a registration leaves the registration that took its pid: an entry goes only
/// with the exact pid, time and identity.
pub proof fn delayed_removal_keeps_a_reused_pid(
    contents: RegistryContents,
    replacement: ProcessModel,
    pid: u32,
    registered_at_ms: u64,
    identity: Option<IdentityModel>,
)
    requires
        !replacement.is_registration(pid, registered_at_ms, identity),
    ensures
        contents.registered(replacement).unregistered(
            pid,
            registered_at_ms,
            identity,
        ).processes.contains(replacement),
{
    let kept = contents.processes.filter(|existing: ProcessModel| existing.pid != replacement.pid);
    let keep = |existing: ProcessModel| !existing.is_registration(pid, registered_at_ms, identity);
    let all = kept.push(replacement);
    assert(all.drop_last() =~= kept);
    reveal(Seq::filter);
    let left = all.filter(keep);
    assert(left == kept.filter(keep).push(replacement));
    assert(left[left.len() - 1] == replacement);
}

/// Registering a process and removing that registration leaves what was there of other pids.
pub proof fn removal_undoes_registration(contents: RegistryContents, entry: ProcessModel)
    ensures
        contents.registered(entry).unregistered(
            entry.pid,
            entry.registered_at_ms,
            entry.identity,
        ).processes == contents.processes.filter(
            |existing: ProcessModel| existing.pid != entry.pid,
        ),
{
    let other = |existing: ProcessModel| existing.pid != entry.pid;
    let kept = contents.processes.filter(other);
    let keep = |existing: ProcessModel|
        !existing.is_registration(entry.pid, entry.registered_at_ms, entry.identity);
    let all = kept.push(entry);
    assert(all.drop_last() =~= kept);
    reveal(Seq::filter);
    assert(all.filter(keep) == kept.filter(keep));
    lemma_filter_of_filter(contents.processes, other, keep);
}

proof fn lemma_filter_of_filter(
    items: Seq<ProcessModel>,
    first: spec_fn(ProcessModel) -> bool,
    second: spec_fn(ProcessModel) -> bool,
)
    requires
        forall|item: ProcessModel| #[trigger] first(item) ==> second(item),
    ensures
        items.filter(first).filter(second) == items.filter(first),
    decreases items.len(),
{
    reveal(Seq::filter);
    if items.len() > 0 {
        let front = items.drop_last();
        lemma_filter_of_filter(front, first, second);
        if first(items.last()) {
            let kept = front.filter(first).push(items.last());
            assert(kept.drop_last() =~= front.filter(first));
        }
    }
}

/// Nothing that is written holds a command.
pub proof fn written_registry_holds_no_command(contents: RegistryContents, i: int)
    requires
        0 <= i < contents.processes.len(),
    ensures
        contents.scrubbed().processes[i].command_preview is None,
{
}

/// Whether a stored registry of a version can be read.
pub open spec fn is_known_version(version: int) -> bool {
    version == 1 || version == PROCESS_REGISTRY_VERSION
}

/// The first two versions of a stored registry can be read, and no other.
pub proof fn two_versions_can_be_read(version: u32)
    ensures
        is_known_version(version as int) <==> 1 <= version <= 2,
{
}

impl Default for ProcessRegistry {
    fn default() -> (r: Self)
        ensures
            r@.version == PROCESS_REGISTRY_VERSION,
            r@.processes == Seq::<ProcessModel>::empty(),
    {
        let r = ProcessRegistry { version: PROCESS_REGISTRY_VERSION, processes: Vec::new() };
        assert(r@.processes =~= Seq::<ProcessModel>::empty());
        r
    }
}

impl ProcessRegistry {
    /// Takes a stored registry, if its version can be read.
    pub fn checked(self) -> (r: Result<ProcessRegistry, u32>)
        ensures
            r is Ok <==> is_known_version(self.version as int),
            r == if self.version == 1 || self.version == PROCESS_REGISTRY_VERSION {
                Ok::<ProcessRegistry, u32>(self)
            } else {
                Err::<ProcessRegistry, u32>(self.version)
            },
    {
        if self.version == 1 || self.version == PROCESS_REGISTRY_VERSION {
            Ok(self)
        } else {
            Err(self.version)
        }
    }

    /// Registers a process, in the place of every earlier one of the same pid.
    pub fn register(&mut self, entry: RegisteredAgentProcess)
        ensures
            final(self)@ == old(self)@.registered(entry@),
    {
        let ghost held = processes_view(self.processes@);
        let ghost keep = |existing: ProcessModel| existing.pid != entry@.pid;
        let mut out: Vec<RegisteredAgentProcess> = Vec::new();
        let mut i: usize = 0;
        proof {
            reveal(Seq::filter);
            assert(held.subrange(0, 0) =~= Seq::<ProcessModel>::empty());
            assert(processes_view(out@) =~= held.subrange(0, 0).filter(keep));
        }
        while i < self.processes.len()
            invariant
                i <= self.processes@.len(),
                held == processes_view(self.processes@),
                keep == (|existing: ProcessModel| existing.pid != entry@.pid),
                processes_view(out@) == held.subrange(0, i as int).filter(keep),
            decreases self.processes@.len() - i,
        {
            let ghost upto = held.subrange(0, i + 1);
            let ghost before = out@;
            proof {
                assert(upto.drop_last() =~= held.subrange(0, i as int));
                assert(upto.last() == self.processes@[i as int]@);
                reveal(Seq::filter);
            }
            if self.processes[i].pid != entry.pid {
                out.push(self.processes[i].clone());
                assert(processes_view(out@) =~= processes_view(before).push(upto.last()));
            }
            i = i + 1;
        }
        assert(held.subrange(0, held.len() as int) =~= held);
        let ghost kept = processes_view(out@);
        let ghost added = entry@;
        out.push(entry);
        assert(processes_view(out@) =~= kept.push(added));
        self.version = PROCESS_REGISTRY_VERSION;
        self.processes = out;
    }

    /// Removes the entries of a registration. Returns whether there were any, that is, whether the
    /// registry has to be written.
    pub fn unregister_if_matching(
        &mut self,
        pid: u32,
        registered_at_ms: u64,
        process_identity: &Option<ProcessIdentity>,
    ) -> (r: bool)
        ensures
            final(self)@ == old(self)@.unregistered(
                pid,
                registered_at_ms,
                identity_view(*process_identity),
            ),
            r == (final(self)@.processes.len() != old(self)@.processes.len()),
    {
        let ghost held = processes_view(self.processes@);
        let ghost identity = identity_view(*process_identity);
        let ghost keep = |existing: ProcessModel|
            !existing.is_registration(pid, registered_at_ms, identity);
        let mut out: Vec<RegisteredAgentProcess> = Vec::new();
        let mut i: usize = 0;
        proof {
            reveal(Seq::filter);
            assert(held.subrange(0, 0) =~= Seq::<ProcessModel>::empty());
            assert(processes_view(out@) =~= held.subrange(0, 0).filter(keep));
        }
        while i < self.processes.len()
            invariant
                i <= self.processes@.len(),
                held == processes_view(self.processes@),
                identity == identity_view(*process_identity),
                keep == (|existing: ProcessModel|
                    !existing.is_registration(pid, registered_at_ms, identity)),
                processes_view(out@) == held.subrange(0, i as int).filter(keep),
            decreases self.processes@.len() - i,
        {
            let ghost upto = held.subrange(0, i + 1);
            let ghost before = out@;
            proof {
                assert(upto.drop_last() =~= held.subrange(0, i as int));
                assert(upto.last() == self.processes@[i as int]@);
                reveal(Seq::filter);
            }
            let existing = &self.processes[i];
            if existing.pid != pid || existing.registered_at_ms != registered_at_ms
                || !same_identity(&existing.process_identity, process_identity) {
                out.push(existing.clone());
                assert(processes_view(out@) =~= processes_view(before).push(upto.last()));
            }
            i = i + 1;
        }
        assert(held.subrange(0, held.len() as int) =~= held);
        let removed = out.len() != self.processes.len();
        assert(processes_view(out@).len() == out@.len());
        self.processes = out;
        removed
    }

    /// The registry as it is written.
    pub fn scrubbed(&self) -> (r: ProcessRegistry)
        ensures
            r@ == self@.scrubbed(),
    {
        let mut out: Vec<RegisteredAgentProcess> = Vec::new();
        let mut i: usize = 0;
        while i < self.processes.len()
            invariant
                i <= self.processes@.len(),
                out@.len() == i,
                forall|j: int|
                    0 <= j < i ==> (#[trigger] out@[j])@ == self.processes@[j]@.scrubbed(),
            decreases self.processes@.len() - i,
        {
            let mut process = self.processes[i].clone();
            process.command_preview = None;
            out.push(process);
            i = i + 1;
        }
        let r = ProcessRegistry { version: self.version, processes: out };
        assert(r@.processes =~= self@.scrubbed().processes);
        r
    }
}

/// What is stored of a process whose registration failed and whose end is not proved.
#[derive(Debug, PartialEq, Eq)]
pub struct EmergencyProcessEvidence {
    pub version: u32,
    pub reason: String,
    pub process: RegisteredAgentProcess,
}

/// The evidence of a process, without its command.
pub fn emergency_evidence(process: &RegisteredAgentProcess) -> (r: EmergencyProcessEvidence)
    ensures
        r.version == 1,
        r.reason@ == "registry_write_failed_cleanup_unproven"@,
        r.process@ == process@.scrubbed(),
{
    let mut process = process.clone();
    process.command_preview = None;
    EmergencyProcessEvidence {
        version: 1,
        reason: "registry_write_failed_cleanup_unproven".to_owned(),
        process,
    }
}

/// The name of the file that holds the evidence of a process.
pub open spec fn evidence_file(registered_at_ms: u64, pid: u32) -> Seq<char> {
    "agent-process-"@ + decimal(registered_at_ms as nat) + "-"@ + decimal(pid as nat) + ".json"@
}

/// The name of the file that holds the evidence of a process.
pub fn emergency_evidence_file_name(process: &RegisteredAgentProcess) -> (r: String)
    ensures
        r@ == evidence_file(process.registered_at_ms, process.pid),
{
    let registered = decimal_string(process.registered_at_ms);
    let pid = decimal_string(process.pid as u64);
    let name = concat("agent-process-", registered.as_str());
    let name = concat(name.as_str(), "-");
    let name = concat(name.as_str(), pid.as_str());
    concat(name.as_str(), ".json")
}

/// A relative path below a directory.
pub open spec fn below(directory: Seq<char>, relative: Seq<char>) -> Seq<char> {
    if directory.len() == 0 {
        relative
    } else if directory.last() == '/' {
        directory + relative
    } else {
        directory + "/"@ + relative
    }
}

fn path_below(directory: &str, relative: &str) -> (r: String)
    ensures
        r@ == below(directory@, relative@),
{
    let chars = chars_of(directory);
    if chars.len() == 0 {
        relative.to_owned()
    } else if chars[chars.len() - 1] == '/' {
        concat(directory, relative)
    } else {
        let with_slash = concat(directory, "/");
        concat(with_slash.as_str(), relative)
    }
}

/// Where the registry lies.
pub fn agent_process_registry_path(data_dir: &str) -> (r: String)
    ensures
        r@ == below(data_dir@, AGENT_PROCESS_REGISTRY_RELATIVE_PATH@),
{
    path_below(data_dir, AGENT_PROCESS_REGISTRY_RELATIVE_PATH)
}

/// Where evidence lies that the registry could not take.
pub fn agent_process_registry_fallback_dir(data_dir: &str) -> (r: String)
    ensures
        r@ == below(data_dir@, AGENT_PROCESS_REGISTRY_FALLBACK_RELATIVE_DIR@),
{
    path_below(data_dir, AGENT_PROCESS_REGISTRY_FALLBACK_RELATIVE_DIR)
}

/// A text with each backslash turned into a slash.
pub open spec fn slashed(s: Seq<char>) -> Seq<char> {
    s.map_values(
        |c: char|
            if c == '\\' {
                '/'
            } else {
                c
            },
    )
}

fn slash_chars(s: &[char]) -> (r: Vec<char>)
    ensures
        r@ == slashed(s@),
{
    let mut out: Vec<char> = Vec::new();
    let mut i: usize = 0;
    while i < s.len()
        invariant
            i <= s@.len(),
            out@.len() == i,
            forall|j: int|
                0 <= j < i ==> #[trigger] out@[j] == (if s@[j] == '\\' {
                    '/'
                } else {
                    s@[j]
                }),
        decreases s@.len() - i,
    {
        out.push(
            if s[i] == '\\' {
                '/'
            } else {
                s[i]
            },
        );
        i = i + 1;
    }
    assert(out@ =~= slashed(s@));
    out
}

/// A text without the slashes at its end.
pub open spec fn without_trailing_slashes(s: Seq<char>) -> Seq<char>
    decreases s.len(),
{
    if s.len() > 0 && s.last() == '/' {
        without_trailing_slashes(s.drop_last())
    } else {
        s
    }
}

/// Whether a text ends with another.
pub open spec fn ends_with(s: Seq<char>, suffix: Seq<char>) -> bool {
    occurs_at(s, suffix, s.len() - suffix.len())
}

/// A Windows path without the prefix of its namespace.
pub open spec fn without_namespace(path: Seq<char>) -> Seq<char> {
    match strip_prefix(path, "\\\\?\\UNC\\"@) {
        Some(rest) => "\\\\"@ + rest,
        None => match strip_prefix(path, "\\\\?\\"@) {
            Some(rest) => rest,
            None => path,
        },
    }
}

/// Whether a path starts with a drive letter.
pub open spec fn starts_with_drive(path: Seq<char>) -> bool {
    path.len() >= 2 && path[1] == ':' && 'a' <= path[0] <= 'z'
}

/// Whether a path names a server and a share.
pub open spec fn names_share(path: Seq<char>) -> bool {
    begins_with(path, "//"@) && words(
        Separator::Slash,
        path.subrange(2, path.len() as int),
    ).len() >= 2
}

/// The form of a Windows path that every program agrees on: with slashes, in lower case, without
/// the prefix of its namespace and without slashes at its end. Nothing where the path is not
/// absolute or goes up.
pub open spec fn normalized_windows_path(path: Seq<char>) -> Option<Seq<char>> {
    let normalized = lower_all(slashed(without_namespace(path)));
    if (!starts_with_drive(normalized) && !names_share(normalized)) || contains(
        normalized,
        "/../"@,
    ) || ends_with(normalized, "/.."@) {
        None
    } else {
        Some(without_trailing_slashes(normalized))
    }
}

/// Whether a path has the form that normalizing gives: slashes only, none of them at the end, in
/// lower case, absolute, and never going up.
pub open spec fn is_normal_windows_path(path: Seq<char>) -> bool {
    &&& forall|i: int|
        0 <= i < path.len() ==> #[trigger] path[i] != '\\' && !('A' <= path[i] <= 'Z')
    &&& path.len() > 0 && path.last() != '/'
    &&& !contains(path, "/../"@)
    &&& !ends_with(path, "/.."@)
    &&& starts_with_drive(path) || begins_with(path, "//"@)
}

proof fn lemma_trailing_slashes(s: Seq<char>)
    ensures
        ({
            let bare = without_trailing_slashes(s);
            &&& bare.len() <= s.len()
            &&& bare == s.subrange(0, bare.len() as int)
            &&& bare.len() > 0 ==> bare.last() != '/'
            &&& forall|i: int| bare.len() <= i < s.len() ==> #[trigger] s[i] == '/'
        }),
    decreases s.len(),
{
    if s.len() > 0 && s.last() == '/' {
        lemma_trailing_slashes(s.drop_last());
        let bare = without_trailing_slashes(s);
        assert(s.drop_last().subrange(0, bare.len() as int) =~= s.subrange(0, bare.len() as int));
        assert forall|i: int| bare.len() <= i < s.len() implies #[trigger] s[i] == '/' by {
            if i < s.len() - 1 {
                assert(s.drop_last()[i] == s[i]);
            }
        }
    } else {
        assert(s.subrange(0, s.len() as int) =~= s);
    }
}

/// A normalized Windows path is in normal form, and normalizing it again changes nothing.
pub proof fn windows_normal_form_is_stable(path: Seq<char>)
    requires
        normalized_windows_path(path) is Some,
    ensures
        is_normal_windows_path(normalized_windows_path(path)->0),
        normalized_windows_path(normalized_windows_path(path)->0) == normalized_windows_path(path),
{
    reveal_strlit("//");
    reveal_strlit("/..");
    reveal_strlit("/../");
    reveal_strlit("\\\\?\\");
    reveal_strlit("\\\\?\\UNC\\");
    let whole = lower_all(slashed(without_namespace(path)));
    let n = without_trailing_slashes(whole);
    let size = n.len() as int;
    lemma_trailing_slashes(whole);
    assert forall|i: int| 0 <= i < whole.len() implies #[trigger] whole[i] != '\\' && !('A'
        <= whole[i] <= 'Z') by {
        assert(whole[i] == lower(slashed(without_namespace(path))[i]));
    }
    assert forall|i: int| 0 <= i < n.len() implies #[trigger] n[i] != '\\' && !('A' <= n[i]
        <= 'Z') by {
        assert(n[i] == whole[i]);
    }
    if starts_with_drive(whole) {
        assert(whole[1] != '/');
        assert(size >= 2);
        assert(n[0] == whole[0] && n[1] == whole[1]);
    } else {
        let tail = whole.subrange(2, whole.len() as int);
        if size <= 2 {
            assert forall|i: int| 0 <= i < tail.len() implies #[trigger] tail[i] == '/' by {
                assert(tail[i] == whole[i + 2]);
            }
            lemma_no_words(Separator::Slash, tail);
        }
        assert forall|i: int| size - 2 <= i < tail.len() implies #[trigger] tail[i] == '/' by {
            assert(tail[i] == whole[i + 2]);
        }
        lemma_words_before_separators(Separator::Slash, tail, size - 2);
        assert(tail.subrange(0, size - 2) =~= n.subrange(2, size));
        assert(n.subrange(0, 2) =~= whole.subrange(0, 2));
    }
    assert(!contains(n, "/../"@)) by {
        if contains(n, "/../"@) {
            let at = choose|at: int| occurs_at(n, "/../"@, at);
            assert(whole.subrange(at, at + 4) =~= n.subrange(at, at + 4));
            assert(occurs_at(whole, "/../"@, at));
        }
    }
    assert(!ends_with(n, "/.."@)) by {
        if ends_with(n, "/.."@) {
            assert(n.subrange(size - 3, size) == "/.."@);
            if whole.len() > size {
                assert(whole[size] == '/');
                assert(whole.subrange(size - 3, size + 1) =~= n.subrange(size - 3, size).push('/'));
                assert(whole.subrange(size - 3, size + 1) =~= "/../"@);
                assert(occurs_at(whole, "/../"@, size - 3));
            } else {
                assert(whole =~= n);
            }
        }
    }
    assert(!begins_with(n, "\\\\?\\"@)) by {
        if begins_with(n, "\\\\?\\"@) {
            assert(n.subrange(0, 4)[0] == n[0]);
        }
    }
    assert(!begins_with(n, "\\\\?\\UNC\\"@)) by {
        if begins_with(n, "\\\\?\\UNC\\"@) {
            assert(n.subrange(0, 8)[0] == n[0]);
        }
    }
    assert(without_namespace(n) == n);
    assert(slashed(n) =~= n);
    assert(lower_all(n) =~= n);
}

/// A drive path means the same with and without the prefix of the namespace.
pub proof fn namespace_of_a_drive_path_is_dropped(path: Seq<char>)
    requires
        path.len() >= 2,
        path[1] == ':',
        path[0] != '\\',
    ensures
        normalized_windows_path("\\\\?\\"@ + path) == normalized_windows_path(path),
{
    reveal_strlit("\\\\?\\");
    reveal_strlit("\\\\?\\UNC\\");
    let prefix = "\\\\?\\"@;
    let long = prefix + path;
    assert(long.subrange(0, 4) =~= prefix);
    assert(long.subrange(4, long.len() as int) =~= path);
    if begins_with(long, "\\\\?\\UNC\\"@) {
        assert(long.subrange(0, 8)[5] == long[5]);
        assert(long[5] == path[1]);
    }
    if begins_with(path, prefix) {
        assert(path.subrange(0, 4)[0] == path[0]);
    }
    if begins_with(path, "\\\\?\\UNC\\"@) {
        assert(path.subrange(0, 8)[0] == path[0]);
    }
}

/// Brings a Windows path to the form that every program agrees on.
pub fn normalize_windows_canonical_path(value: &str) -> (r: Result<String, EvidenceError>)
    ensures
        match r {
            Ok(normalized) => {
                &&& normalized_windows_path(value@) == Some(normalized@)
                &&& is_normal_windows_path(normalized@)
                &&& normalized_windows_path(normalized@) == Some(normalized@)
            },
            Err(error) => normalized_windows_path(value@) is None && error@ == (
                EvidenceErrorKind::InvalidData,
                "canonical Windows data directory has an invalid absolute form"@,
            ),
        },
{
    let chars = chars_of(value);
    let bare = match strip_text_prefix(chars.as_slice(), "\\\\?\\UNC\\") {
        Some(rest) => {
            let mut bare = chars_of("\\\\");
            push_all(&mut bare, rest.as_slice());
            bare
        },
        None => match strip_text_prefix(chars.as_slice(), "\\\\?\\") {
            Some(rest) => rest,
            None => chars,
        },
    };
    let with_slashes = slash_chars(bare.as_slice());
    let normalized = lower_chars(with_slashes.as_slice());
    let is_drive = normalized.len() >= 2 && normalized[1] == ':' && 'a' <= normalized[0]
        && normalized[0] <= 'z';
    let is_share = if begins_with_text(normalized.as_slice(), "//") {
        proof {
            reveal_strlit("//");
        }
        let rest = copy_range(normalized.as_slice(), 2, normalized.len());
        let parts = split_words(Separator::Slash, rest.as_slice());
        assert(char_lists(parts@).len() == parts@.len());
        parts.len() >= 2
    } else {
        false
    };
    let suffix = chars_of("/..");
    let goes_up = contains_text(normalized.as_slice(), "/../") || (normalized.len() >= suffix.len()
        && occurs_chars_at(
        normalized.as_slice(),
        suffix.as_slice(),
        normalized.len() - suffix.len(),
    ));
    if (!is_drive && !is_share) || goes_up {
        return Err(
            EvidenceError::invalid("canonical Windows data directory has an invalid absolute form"),
        );
    }
    let mut end: usize = normalized.len();
    let ghost whole = normalized@;
    assert(whole.subrange(0, whole.len() as int) =~= whole);
    while end > 0 && normalized[end - 1] == '/'
        invariant
            end <= normalized@.len(),
            whole == normalized@,
            without_trailing_slashes(whole) == without_trailing_slashes(
                whole.subrange(0, end as int),
            ),
        decreases end,
    {
        assert(whole.subrange(0, end as int).drop_last() =~= whole.subrange(0, end - 1));
        end = end - 1;
    }
    let normalized = copy_range(normalized.as_slice(), 0, end);
    proof {
        windows_normal_form_is_stable(value@);
    }
    Ok(string_of(normalized.as_slice()))
}

/// The platform and the path that the key of a data directory is made of.
pub open spec fn key_parts(platform: Seq<char>, canonical: Seq<char>) -> Result<
    (Seq<char>, Seq<char>),
    (EvidenceErrorKind, Seq<char>),
> {
    if platform == "windows"@ || platform == "win32"@ {
        match normalized_windows_path(canonical) {
            Some(normalized) => Ok(("windows"@, normalized)),
            None => Err(
                (
                    EvidenceErrorKind::InvalidData,
                    "canonical Windows data directory has an invalid absolute form"@,
                ),
            ),
        }
    } else if platform == "macos"@ || platform == "darwin"@ || platform == "linux"@ {
        Ok(("posix"@, canonical))
    } else {
        Err(
            (
                EvidenceErrorKind::Unsupported,
                "unsupported platform for external process evidence"@,
            ),
        )
    }
}

/// The text that the key of a data directory is the digest of.
pub open spec fn key_text(platform: Seq<char>, path: Seq<char>) -> Seq<char> {
    EXTERNAL_EVIDENCE_KEY_DOMAIN@ + seq!['\0'] + platform + seq!['\0'] + path
}

/// The bytes that the key of a data directory is the digest of.
pub fn external_evidence_key_preimage(platform: &str, canonical: &str) -> (r: Result<
    Vec<u8>,
    EvidenceError,
>)
    ensures
        match (r, key_parts(platform@, canonical@)) {
            (Ok(bytes), Ok((name, path))) => bytes@ == encode_utf8(key_text(name, path)),
            (Err(error), Err(fault)) => error@ == fault,
            _ => false,
        },
{
    let (name, path) = if same_text(platform, "windows") || same_text(platform, "win32") {
        match normalize_windows_canonical_path(canonical) {
            Ok(normalized) => ("windows", chars_of(normalized.as_str())),
            Err(error) => {
                return Err(error);
            },
        }
    } else if same_text(platform, "macos") || same_text(platform, "darwin") || same_text(
        platform,
        "linux",
    ) {
        ("posix", chars_of(canonical))
    } else {
        return Err(
            EvidenceError {
                kind: EvidenceErrorKind::Unsupported,
                message: "unsupported platform for external process evidence".to_owned(),
            },
        );
    };
    let mut text = chars_of(EXTERNAL_EVIDENCE_KEY_DOMAIN);
    text.push('\0');
    let name_chars = chars_of(name);
    push_all(&mut text, name_chars.as_slice());
    text.push('\0');
    push_all(&mut text, path.as_slice());
    assert(text@ =~= key_text(name@, path@));
    let whole = string_of(text.as_slice());
    Ok(copy_bytes(whole.as_str().as_bytes()))
}

fn copy_bytes(bytes: &[u8]) -> (r: Vec<u8>)
    ensures
        r@ == bytes@,
{
    let mut out: Vec<u8> = Vec::new();
    let mut i: usize = 0;
    while i < bytes.len()
        invariant
            i <= bytes@.len(),
            out@ == bytes@.subrange(0, i as int),
        decreases bytes@.len() - i,
    {
        out.push(bytes[i]);
        i = i + 1;
        assert(bytes@.subrange(0, i as int) =~= bytes@.subrange(0, i - 1).push(bytes@[i - 1]));
    }
    assert(bytes@.subrange(0, bytes@.len() as int) =~= bytes@);
    out
}

/// The key under which the evidence of a data directory lies outside of it.
pub fn external_evidence_key(platform: &str, canonical: &str) -> (r: Result<String, EvidenceError>)
    ensures
        match (r, key_parts(platform@, canonical@)) {
            (Ok(key), Ok((name, path))) => key@ == hex_text(
                sha256(encode_utf8(key_text(name, path))),
            ),
            (Err(error), Err(fault)) => error@ == fault,
            _ => false,
        },
{
    match external_evidence_key_preimage(platform, canonical) {
        Ok(preimage) => {
            let digest = sha256_digest(preimage.as_slice());
            Ok(hex_encode(digest.as_slice()))
        },
        Err(error) => Err(error),
    }
}

/// Where the evidence of a data directory lies outside of it.
pub fn agent_process_registry_external_fallback_dir(
    temp_dir: &str,
    platform: &str,
    canonical: &str,
) -> (r: Result<String, EvidenceError>)
    ensures
        match (r, key_parts(platform@, canonical@)) {
            (Ok(dir), Ok((name, path))) => dir@ == below(
                below(temp_dir@, AGENT_PROCESS_REGISTRY_EXTERNAL_FALLBACK_DIR_NAME@),
                hex_text(sha256(encode_utf8(key_text(name, path)))),
            ),
            (Err(error), Err(fault)) => error@ == fault,
            _ => false,
        },
{
    match external_evidence_key(platform, canonical) {
        Ok(key) => {
            let parent = path_below(temp_dir, AGENT_PROCESS_REGISTRY_EXTERNAL_FALLBACK_DIR_NAME);
            Ok(path_below(parent.as_str(), key.as_str()))
        },
        Err(error) => Err(error),
    }
}

/// Whether a process of a platform may be registered only with a proven identity.
pub fn platform_requires_proven_process_identity(platform: &str) -> (r: bool)
    ensures
        r == (platform@ == "windows"@),
{
    same_text(platform, "windows")
}

/// Whether a text is a UUID in lower case.
pub fn is_exact_lowercase_uuid(value: &str) -> (r: bool)
    ensures
        r == is_uuid_text(value@),
{
    let chars = chars_of(value);
    if chars.len() != 36 {
        return false;
    }
    let mut i: usize = 0;
    while i < chars.len()
        invariant
            chars@ == value@,
            chars@.len() == 36,
            i <= 36,
            forall|j: int|
                0 <= j < i ==> if j == 8 || j == 13 || j == 18 || j == 23 {
                    #[trigger] chars@[j] == '-'
                } else {
                    is_lower_hex(chars@[j])
                },
        decreases 36 - i,
    {
        let c = chars[i];
        let fits = if i == 8 || i == 13 || i == 18 || i == 23 {
            c == '-'
        } else {
            ('0' <= c && c <= '9') || ('a' <= c && c <= 'f')
        };
        if !fits {
            return false;
        }
        i = i + 1;
    }
    true
}

/// What the process table says of a process.
#[derive(Debug, Clone, Copy, PartialEq, Eq, Structural)]
pub struct LinuxProcStatIdentity {
    pub parent_pid: u32,
    pub process_group_id: u32,
    pub start_time_ticks: u64,
}

/// The position of the last occurrence of a character, or nothing.
pub open spec fn last_position(s: Seq<char>, c: char) -> Option<nat>
    decreases s.len(),
{
    if s.len() == 0 {
        None
    } else if s.last() == c {
        Some((s.len() - 1) as nat)
    } else {
        last_position(s.drop_last(), c)
    }
}

/// An unsigned number in decimal digits, with or without a plus sign, not larger than `max`.
pub open spec fn unsigned(s: Seq<char>, max: u64) -> Option<u64> {
    if s.len() > 0 && s[0] == '+' {
        number_of(s.drop_first(), max)
    } else {
        number_of(s, max)
    }
}

fn parse_unsigned(s: &[char], max: u64) -> (r: Option<u64>)
    ensures
        r == unsigned(s@, max),
{
    if s.len() > 0 && s[0] == '+' {
        let rest = copy_range(s, 1, s.len());
        assert(rest@ =~= s@.drop_first());
        parse_number(rest.as_slice(), max)
    } else {
        parse_number(s, max)
    }
}

/// The fields of a process table entry behind the command, which is in round brackets.
pub open spec fn stat_fields(stat: Seq<char>) -> Option<Seq<Seq<char>>> {
    match last_position(stat, ')') {
        Some(at) => Some(
            words(Separator::White, stat.subrange(at as int + 1, stat.len() as int)),
        ),
        None => None,
    }
}

/// A numeric field, or what is wrong with it.
pub open spec fn stat_number(
    fields: Seq<Seq<char>>,
    at: int,
    max: u64,
    missing: Seq<char>,
    malformed: Seq<char>,
) -> Result<u64, Seq<char>> {
    if at >= fields.len() {
        Err(missing)
    } else {
        match unsigned(fields[at], max) {
            Some(value) => Ok(value),
            None => Err(malformed),
        }
    }
}

/// What an entry of the process table says, or what is wrong with it. The first field behind the
/// command is the state; the parent, the group and, further on, the start time follow.
pub open spec fn parsed_stat(stat: Seq<char>) -> Result<LinuxProcStatIdentity, Seq<char>> {
    match stat_fields(stat) {
        None => Err("Linux proc stat has no command terminator"@),
        Some(fields) => if fields.len() == 0 {
            Err("Linux proc stat has no state"@)
        } else {
            match stat_number(
                fields,
                1,
                u32::MAX as u64,
                "Linux proc stat has no parent pid"@,
                "Linux proc parent pid is not numeric"@,
            ) {
                Err(fault) => Err(fault),
                Ok(parent_pid) => match stat_number(
                    fields,
                    2,
                    u32::MAX as u64,
                    "Linux proc stat has no process group id"@,
                    "Linux proc process group id is not numeric"@,
                ) {
                    Err(fault) => Err(fault),
                    Ok(process_group_id) => if fields.len() < 19 {
                        Err("Linux proc stat is truncated"@)
                    } else {
                        match stat_number(
                            fields,
                            19,
                            u64::MAX,
                            "Linux proc stat has no start time"@,
                            "Linux proc start time is not numeric"@,
                        ) {
                            Err(fault) => Err(fault),
                            Ok(start_time_ticks) => Ok(
                                LinuxProcStatIdentity {
                                    parent_pid: parent_pid as u32,
                                    process_group_id: process_group_id as u32,
                                    start_time_ticks,
                                },
                            ),
                        }
                    },
                },
            }
        },
    }
}

fn parse_linux_proc_field(
    fields: &Vec<Vec<char>>,
    at: usize,
    max: u64,
    missing: &'static str,
    malformed: &'static str,
) -> (r: Result<u64, EvidenceError>)
    ensures
        match (r, stat_number(char_lists(fields@), at as int, max, missing@, malformed@)) {
            (Ok(value), Ok(expected)) => value == expected,
            (Err(error), Err(fault)) => error@ == (EvidenceErrorKind::InvalidData, fault),
            _ => false,
        },
{
    assert(char_lists(fields@).len() == fields@.len());
    if at >= fields.len() {
        return Err(EvidenceError::invalid(missing));
    }
    assert(char_lists(fields@)[at as int] == fields@[at as int]@);
    match parse_unsigned(fields[at].as_slice(), max) {
        Some(value) => Ok(value),
        None => Err(EvidenceError::invalid(malformed)),
    }
}

/// Reads an entry of the process table.
pub fn parse_linux_proc_stat(stat: &str) -> (r: Result<LinuxProcStatIdentity, EvidenceError>)
    ensures
        match (r, parsed_stat(stat@)) {
            (Ok(identity), Ok(expected)) => identity == expected,
            (Err(error), Err(fault)) => error@ == (EvidenceErrorKind::InvalidData, fault),
            _ => false,
        },
{
    let chars = chars_of(stat);
    let mut end: usize = chars.len();
    assert(stat@.subrange(0, stat@.len() as int) =~= stat@);
    while end > 0 && chars[end - 1] != ')'
        invariant
            end <= chars@.len(),
            chars@ == stat@,
            last_position(stat@, ')') == last_position(stat@.subrange(0, end as int), ')'),
        decreases end,
    {
        assert(stat@.subrange(0, end as int).drop_last() =~= stat@.subrange(0, end - 1));
        end = end - 1;
    }
    if end == 0 {
        return Err(EvidenceError::invalid("Linux proc stat has no command terminator"));
    }
    let rest = copy_range(chars.as_slice(), end, chars.len());
    let fields = split_words(Separator::White, rest.as_slice());
    assert(stat_fields(stat@) == Some(char_lists(fields@)));
    assert(char_lists(fields@).len() == fields@.len());
    if fields.len() == 0 {
        return Err(EvidenceError::invalid("Linux proc stat has no state"));
    }
    let parent_pid = match parse_linux_proc_field(
        &fields,
        1,
        u32::MAX as u64,
        "Linux proc stat has no parent pid",
        "Linux proc parent pid is not numeric",
    ) {
        Ok(value) => value,
        Err(error) => {
            return Err(error);
        },
    };
    let process_group_id = match parse_linux_proc_field(
        &fields,
        2,
        u32::MAX as u64,
        "Linux proc stat has no process group id",
        "Linux proc process group id is not numeric",
    ) {
        Ok(value) => value,
        Err(error) => {
            return Err(error);
        },
    };
    if fields.len() < 19 {
        return Err(EvidenceError::invalid("Linux proc stat is truncated"));
    }
    match parse_linux_proc_field(
        &fields,
        19,
        u64::MAX,
        "Linux proc stat has no start time",
        "Linux proc start time is not numeric",
    ) {
        Ok(start_time_ticks) => Ok(
            LinuxProcStatIdentity {
                parent_pid: parent_pid as u32,
                process_group_id: process_group_id as u32,
                start_time_ticks,
            },
        ),
        Err(error) => Err(error),
    }
}

/// What is wrong with the parent or the group of a process that was just spawned, if anything.
pub open spec fn parentage_fault(
    expected_parent: u32,
    observed_parent: u32,
    expected_group: Option<u32>,
    observed_group: u32,
) -> Option<Seq<char>> {
    if observed_parent != expected_parent {
        Some(
            "process parent changed during registration: expected "@ + decimal(
                expected_parent as nat,
            ) + ", observed "@ + decimal(observed_parent as nat),
        )
    } else if expected_group is Some && expected_group->0 != observed_group {
        Some(
            "process group changed during registration: expected "@ + decimal(
                expected_group->0 as nat,
            ) + ", observed "@ + decimal(observed_group as nat),
        )
    } else {
        None
    }
}

fn changed_message(what: &str, expected: u32, observed: u32) -> (r: String)
    ensures
        r@ == what@ + decimal(expected as nat) + ", observed "@ + decimal(observed as nat),
{
    let expected = decimal_string(expected as u64);
    let observed = decimal_string(observed as u64);
    let message = concat(what, expected.as_str());
    let message = concat(message.as_str(), ", observed ");
    concat(message.as_str(), observed.as_str())
}

/// Says whether a process that was just spawned is still a child of its spawner, in its group.
pub fn check_parentage(
    expected_parent_pid: u32,
    observed_parent_pid: u32,
    expected_process_group_id: Option<u32>,
    observed_process_group_id: u32,
) -> (r: Result<(), EvidenceError>)
    ensures
        match (
            r,
            parentage_fault(
                expected_parent_pid,
                observed_parent_pid,
                expected_process_group_id,
                observed_process_group_id,
            ),
        ) {
            (Ok(()), None) => true,
            (Err(error), Some(fault)) => error@ == (EvidenceErrorKind::InvalidData, fault),
            _ => false,
        },
{
    if observed_parent_pid != expected_parent_pid {
        let message = changed_message(
            "process parent changed during registration: expected ",
            expected_parent_pid,
            observed_parent_pid,
        );
        return Err(EvidenceError::invalid(message.as_str()));
    }
    if let Some(expected) = expected_process_group_id {
        if observed_process_group_id != expected {
            let message = changed_message(
                "process group changed during registration: expected ",
                expected,
                observed_process_group_id,
            );
            return Err(EvidenceError::invalid(message.as_str()));
        }
    }
    Ok(())
}

/// Whether a path starts at the root.
pub open spec fn is_rooted(path: Seq<char>) -> bool {
    begins_with(path, "/"@)
}

/// Why a Linux process has no identity, if it has none.
pub open spec fn linux_fault(boot_id: Seq<char>, executable_path: Seq<char>) -> Option<Seq<char>> {
    if !is_uuid_text(trim(boot_id)) {
        Some("Linux boot id is empty or malformed"@)
    } else if !is_rooted(executable_path) {
        Some("process path is not absolute UTF-8"@)
    } else {
        None
    }
}

/// The identity of a Linux process, where it has one.
pub open spec fn linux_identity(
    fields: LinuxProcStatIdentity,
    boot_id: Seq<char>,
    executable_path: Seq<char>,
) -> IdentityModel {
    IdentityModel {
        platform: "linux"@,
        start_kind: "linux_boot_ticks"@,
        start_value: trim(boot_id) + ":"@ + decimal(fields.start_time_ticks as nat),
        parent_pid: fields.parent_pid,
        executable_path,
    }
}

/// The identity of a Linux process, by the boot it belongs to, its start tick and its executable.
pub fn linux_process_identity(
    fields: LinuxProcStatIdentity,
    boot_id: &str,
    executable_path: &str,
) -> (r: Result<ProcessIdentity, EvidenceError>)
    ensures
        match r {
            Ok(identity) => linux_fault(boot_id@, executable_path@) is None && identity@
                == linux_identity(fields, boot_id@, executable_path@),
            Err(error) => linux_fault(boot_id@, executable_path@) == Some(error@.1),
        },
        match r {
            Ok(identity) => is_uuid_text(trim(boot_id@)) && is_rooted(executable_path@)
                && identity@ == (IdentityModel {
                platform: "linux"@,
                start_kind: "linux_boot_ticks"@,
                start_value: trim(boot_id@) + ":"@ + decimal(fields.start_time_ticks as nat),
                parent_pid: fields.parent_pid,
                executable_path: executable_path@,
            }),
            Err(error) => if !is_uuid_text(trim(boot_id@)) {
                error@ == (
                    EvidenceErrorKind::InvalidData,
                    "Linux boot id is empty or malformed"@,
                )
            } else {
                !is_rooted(executable_path@) && error@ == (
                    EvidenceErrorKind::InvalidData,
                    "process path is not absolute UTF-8"@,
                )
            },
        },
{
    let boot_chars = chars_of(boot_id);
    let trimmed = trim_chars(boot_chars.as_slice());
    let boot_id = string_of(trimmed.as_slice());
    if !is_exact_lowercase_uuid(boot_id.as_str()) {
        return Err(EvidenceError::invalid("Linux boot id is empty or malformed"));
    }
    let path = chars_of(executable_path);
    if !begins_with_text(path.as_slice(), "/") {
        return Err(EvidenceError::invalid("process path is not absolute UTF-8"));
    }
    let ticks = decimal_string(fields.start_time_ticks);
    let value = concat(boot_id.as_str(), ":");
    Ok(
        ProcessIdentity {
            platform: "linux".to_owned(),
            start_time: ProcessStartTime {
                kind: "linux_boot_ticks".to_owned(),
                value: concat(value.as_str(), ticks.as_str()),
            },
            parent_pid: fields.parent_pid,
            executable_path: executable_path.to_owned(),
        },
    )
}

/// What macOS says of a process.
#[derive(Debug, Clone, Copy, PartialEq, Eq, Structural)]
pub struct DarwinProcessInfo {
    pub pid: u32,
    pub parent_pid: u32,
    pub process_group_id: u32,
    pub start_seconds: u64,
    pub start_microseconds: u64,
}

/// When a macOS process started, in microseconds; nothing where that is too large.
pub open spec fn darwin_start(info: DarwinProcessInfo) -> Option<nat> {
    if info.start_seconds * 1_000_000 + info.start_microseconds <= u64::MAX {
        Some((info.start_seconds * 1_000_000 + info.start_microseconds) as nat)
    } else {
        None
    }
}

/// What is wrong with what macOS says of a process, if anything.
pub open spec fn darwin_fault(
    pid: u32,
    info: DarwinProcessInfo,
    executable_path: Seq<char>,
    expected_group: Option<u32>,
    expected_parent: u32,
) -> Option<Seq<char>> {
    if info.pid != pid {
        Some(
            "proc_pidinfo returned pid "@ + decimal(info.pid as nat) + " for requested pid "@
                + decimal(pid as nat),
        )
    } else if parentage_fault(
        expected_parent,
        info.parent_pid,
        expected_group,
        info.process_group_id,
    ) is Some {
        parentage_fault(expected_parent, info.parent_pid, expected_group, info.process_group_id)
    } else if !is_rooted(executable_path) {
        Some("process path is empty or not absolute"@)
    } else if darwin_start(info) is None {
        Some("process start time overflow"@)
    } else {
        None
    }
}

/// The identity of a Darwin process, where it has one.
pub open spec fn darwin_identity(
    info: DarwinProcessInfo,
    executable_path: Seq<char>,
) -> IdentityModel {
    IdentityModel {
        platform: "darwin"@,
        start_kind: "unix_epoch_us"@,
        start_value: decimal(darwin_start(info)->0),
        parent_pid: info.parent_pid,
        executable_path,
    }
}

/// The identity of a macOS process.
pub fn darwin_process_identity(
    pid: u32,
    info: DarwinProcessInfo,
    executable_path: &str,
    expected_process_group_id: Option<u32>,
    expected_parent_pid: u32,
) -> (r: Result<ProcessIdentity, EvidenceError>)
    ensures
        match (
            r,
            darwin_fault(
                pid,
                info,
                executable_path@,
                expected_process_group_id,
                expected_parent_pid,
            ),
        ) {
            (Ok(identity), None) => identity@ == darwin_identity(info, executable_path@),
            (Err(error), Some(fault)) => error@ == (EvidenceErrorKind::InvalidData, fault),
            _ => false,
        },
{
    if info.pid != pid {
        let observed = decimal_string(info.pid as u64);
        let requested = decimal_string(pid as u64);
        let message = concat("proc_pidinfo returned pid ", observed.as_str());
        let message = concat(message.as_str(), " for requested pid ");
        let message = concat(message.as_str(), requested.as_str());
        return Err(EvidenceError::invalid(message.as_str()));
    }
    if let Err(error) = check_parentage(
        expected_parent_pid,
        info.parent_pid,
        expected_process_group_id,
        info.process_group_id,
    ) {
        return Err(error);
    }
    let path = chars_of(executable_path);
    if !begins_with_text(path.as_slice(), "/") {
        return Err(EvidenceError::invalid("process path is empty or not absolute"));
    }
    let start_time_us = match info.start_seconds.checked_mul(1_000_000) {
        Some(microseconds) => match microseconds.checked_add(info.start_microseconds) {
            Some(total) => total,
            None => {
                return Err(EvidenceError::invalid("process start time overflow"));
            },
        },
        None => {
            return Err(EvidenceError::invalid("process start time overflow"));
        },
    };
    Ok(
        ProcessIdentity {
            platform: "darwin".to_owned(),
            start_time: ProcessStartTime {
                kind: "unix_epoch_us".to_owned(),
                value: decimal_string(start_time_us),
            },
            parent_pid: info.parent_pid,
            executable_path: executable_path.to_owned(),
        },
    )
}

/// Why a Windows process has no identity, if it has none.
pub open spec fn windows_fault(
    creation_high: u32,
    creation_low: u32,
    executable_path: Seq<char>,
    path_is_absolute: bool,
) -> Option<Seq<char>> {
    if executable_path.len() == 0 || !path_is_absolute {
        Some("Windows process path is empty or not absolute"@)
    } else if windows_filetime(creation_high, creation_low) == 0 {
        Some("Windows process creation time is zero"@)
    } else {
        None
    }
}

/// The identity of a Windows process, where it has one.
pub open spec fn windows_identity(
    creation_high: u32,
    creation_low: u32,
    executable_path: Seq<char>,
    parent_pid: u32,
) -> IdentityModel {
    IdentityModel {
        platform: "win32"@,
        start_kind: "windows_filetime_100ns"@,
        start_value: decimal(windows_filetime(creation_high, creation_low)),
        parent_pid,
        executable_path,
    }
}

/// The identity of a Windows process. `path_is_absolute` says whether Windows takes the path to its
/// executable for an absolute one.
pub fn windows_process_identity(
    creation_high: u32,
    creation_low: u32,
    executable_path: &str,
    path_is_absolute: bool,
    expected_parent_pid: u32,
) -> (r: Result<ProcessIdentity, EvidenceError>)
    ensures
        match r {
            Ok(identity) => windows_fault(
                creation_high,
                creation_low,
                executable_path@,
                path_is_absolute,
            ) is None && identity@ == windows_identity(
                creation_high,
                creation_low,
                executable_path@,
                expected_parent_pid,
            ),
            Err(error) => windows_fault(
                creation_high,
                creation_low,
                executable_path@,
                path_is_absolute,
            ) == Some(error@.1),
        },
        match r {
            Ok(identity) => executable_path@.len() > 0 && path_is_absolute && windows_filetime(
                creation_high,
                creation_low,
            ) != 0 && identity@ == (IdentityModel {
                platform: "win32"@,
                start_kind: "windows_filetime_100ns"@,
                start_value: decimal(windows_filetime(creation_high, creation_low)),
                parent_pid: expected_parent_pid,
                executable_path: executable_path@,
            }),
            Err(error) => if executable_path@.len() == 0 || !path_is_absolute {
                error@ == (
                    EvidenceErrorKind::InvalidData,
                    "Windows process path is empty or not absolute"@,
                )
            } else {
                windows_filetime(creation_high, creation_low) == 0 && error@ == (
                    EvidenceErrorKind::InvalidData,
                    "Windows process creation time is zero"@,
                )
            },
        },
{
    if executable_path.is_empty() || !path_is_absolute {
        return Err(EvidenceError::invalid("Windows process path is empty or not absolute"));
    }
    let creation_100ns: u64 = (creation_high as u64) * 4_294_967_296 + creation_low as u64;
    if creation_100ns == 0 {
        return Err(EvidenceError::invalid("Windows process creation time is zero"));
    }
    Ok(
        ProcessIdentity {
            platform: "win32".to_owned(),
            start_time: ProcessStartTime {
                kind: "windows_filetime_100ns".to_owned(),
                value: decimal_string(creation_100ns),
            },
            parent_pid: expected_parent_pid,
            executable_path: executable_path.to_owned(),
        },
    )
}

/// The time that the two halves of a Windows file time stand for.
pub open spec fn windows_filetime(high: u32, low: u32) -> nat {
    (high * 4_294_967_296 + low) as nat
}

/// The identity of a process, where it could be found out; a failure leaves it unproven.
pub fn capture_process_identity_or_unproven(
    captured: Result<Option<ProcessIdentity>, EvidenceError>,
) -> (r: Option<ProcessIdentity>)
    ensures
        identity_view(r) == match captured {
            Ok(identity) => identity_view(identity),
            Err(_) => None,
        },
{
    match captured {
        Ok(identity) => identity,
        Err(_) => None,
    }
}

/// The claim of a spawner on a process that it has registered.
#[derive(Debug)]
pub struct RegisteredProcessLease {
    pub data_dir: String,
    pub pid: u32,
    pub process_group_id: Option<u32>,
    pub registered_at_ms: u64,
    pub process_identity: Option<ProcessIdentity>,
}

/// A process to be registered, and the claim on it. The command is never stored.
pub fn new_registration(
    data_dir: &str,
    pid: u32,
    process_group_id: Option<u32>,
    conversation_id: &str,
    agent_type: &str,
    backend: Option<String>,
    registered_at_ms: u64,
    process_identity: Option<ProcessIdentity>,
) -> (r: (RegisteredAgentProcess, RegisteredProcessLease))
    ensures
        r.0@ == (ProcessModel {
            pid,
            process_group_id,
            conversation_id: conversation_id@,
            agent_type: agent_type@,
            backend: text_view(backend),
            command_preview: None,
            registered_at_ms,
            identity: identity_view(process_identity),
        }),
        r.1.data_dir@ == data_dir@,
        r.1.pid == pid,
        r.1.process_group_id == process_group_id,
        r.1.registered_at_ms == registered_at_ms,
        identity_view(r.1.process_identity) == identity_view(process_identity),
{
    let lease = RegisteredProcessLease {
        data_dir: data_dir.to_owned(),
        pid,
        process_group_id,
        registered_at_ms,
        process_identity: clone_identity(&process_identity),
    };
    (
        RegisteredAgentProcess {
            pid,
            process_group_id,
            conversation_id: conversation_id.to_owned(),
            agent_type: agent_type.to_owned(),
            backend,
            command_preview: None,
            registered_at_ms,
            process_identity,
        },
        lease,
    )
}

/// A message about a process.
pub open spec fn about_process(before: Seq<char>, pid: u32, after: Seq<char>) -> Seq<char> {
    before + decimal(pid as nat) + after
}

fn process_message(before: &str, pid: u32, after: &str) -> (r: String)
    ensures
        r@ == about_process(before@, pid, after@),
{
    let pid = decimal_string(pid as u64);
    let message = concat(before, pid.as_str());
    concat(message.as_str(), after)
}

/// Why a process may not be signalled, if it may not.
pub open spec fn signal_fault(
    pid: u32,
    expected: Option<IdentityModel>,
    observed: Result<Option<IdentityModel>, Seq<char>>,
) -> Option<Seq<char>> {
    if expected is None {
        Some(
            about_process(
                "Process "@,
                pid,
                " has no proven birth identity; numeric signal authority denied"@,
            ),
        )
    } else {
        match observed {
            Err(cause) => Some(
                about_process(
                    "Process "@,
                    pid,
                    " birth identity could not be revalidated before signal: "@ + cause,
                ),
            ),
            Ok(None) => Some(
                about_process("Process "@, pid, " birth identity is unavailable before signal"@),
            ),
            Ok(Some(observed)) => if expected->0.same_birth(observed) {
                None
            } else {
                Some(
                    about_process(
                        "Process "@,
                        pid,
                        " birth identity changed before signal; numeric signal authority denied"@,
                    ),
                )
            },
        }
    }
}

/// What was observed of a process, as text.
pub open spec fn observed_view(observed: Result<Option<ProcessIdentity>, String>) -> Result<
    Option<IdentityModel>,
    Seq<char>,
> {
    match observed {
        Ok(identity) => Ok(identity_view(identity)),
        Err(cause) => Err(cause@),
    }
}

/// A process is signalled only where its birth is proved and observed to be the same.
pub proof fn only_the_same_birth_is_signalled(
    pid: u32,
    expected: Option<IdentityModel>,
    observed: Result<Option<IdentityModel>, Seq<char>>,
)
    requires
        signal_fault(pid, expected, observed) is None,
    ensures
        expected is Some,
        observed is Ok,
        observed->Ok_0 is Some,
        expected->0.same_birth(observed->Ok_0->0),
{
}

impl RegisteredProcessLease {
    /// Says whether the process may be signalled, by what was just observed of it.
    pub fn revalidate_signal_authority(&self, observed: Result<Option<ProcessIdentity>, String>) -> (r:
        Result<(), AgentError>)
        ensures
            match (
                r,
                signal_fault(
                    self.pid,
                    identity_view(self.process_identity),
                    observed_view(observed),
                ),
            ) {
                (Ok(()), None) => true,
                (Err(error), Some(fault)) => error@ == (AgentErrorKind::Internal, fault),
                _ => false,
            },
    {
        let expected = match &self.process_identity {
            Some(expected) => expected,
            None => {
                let message = process_message(
                    "Process ",
                    self.pid,
                    " has no proven birth identity; numeric signal authority denied",
                );
                return Err(AgentError::internal(message.as_str()));
            },
        };
        let observed = match observed {
            Ok(Some(observed)) => observed,
            Ok(None) => {
                let message = process_message(
                    "Process ",
                    self.pid,
                    " birth identity is unavailable before signal",
                );
                return Err(AgentError::internal(message.as_str()));
            },
            Err(cause) => {
                let after = concat(
                    " birth identity could not be revalidated before signal: ",
                    cause.as_str(),
                );
                let message = process_message("Process ", self.pid, after.as_str());
                return Err(AgentError::internal(message.as_str()));
            },
        };
        if !same_signal_authority(expected, &observed) {
            let message = process_message(
                "Process ",
                self.pid,
                " birth identity changed before signal; numeric signal authority denied",
            );
            return Err(AgentError::internal(message.as_str()));
        }
        Ok(())
    }

    /// Removes the registration once the process and its descendants are proved to be gone. Without
    /// the proof it stays. Returns whether the registry has to be written.
    pub fn unregister_after_absence_proof(
        &self,
        registry: &mut ProcessRegistry,
        proof_of_absence: Result<(), AgentError>,
    ) -> (r: Result<bool, AgentError>)
        ensures
            match proof_of_absence {
                Ok(()) => {
                    &&& final(registry)@ == old(registry)@.unregistered(
                        self.pid,
                        self.registered_at_ms,
                        identity_view(self.process_identity),
                    )
                    &&& r matches Ok(changed) && changed == (final(registry)@.processes.len()
                        != old(registry)@.processes.len())
                },
                Err(cause) => {
                    &&& *final(registry) == *old(registry)
                    &&& r matches Err(error) && error == cause
                },
            },
    {
        match proof_of_absence {
            Ok(()) => Ok(
                registry.unregister_if_matching(
                    self.pid,
                    self.registered_at_ms,
                    &self.process_identity,
                ),
            ),
            Err(error) => Err(error),
        }
    }
}

/// What is done with a process that was just spawned.
#[derive(Debug, Clone, Copy, PartialEq, Eq, Structural)]
pub enum RegistrationPlan {
    /// Another process is not accounted for: this one is ended and refused.
    RefuseUnderSupervision,
    /// The platform needs a proven identity and there is none: this one is ended and refused.
    RefuseUnproven,
    /// It is registered.
    Register,
}

/// What is done with a process that was just spawned.
pub open spec fn registration_plan(
    supervision_active: bool,
    identity_proven: bool,
    platform: Seq<char>,
) -> RegistrationPlan {
    if supervision_active {
        RegistrationPlan::RefuseUnderSupervision
    } else if !identity_proven && platform == "windows"@ {
        RegistrationPlan::RefuseUnproven
    } else {
        RegistrationPlan::Register
    }
}

/// What is done with a process that was just spawned.
pub fn plan_registration(supervision_active: bool, identity_proven: bool, platform: &str) -> (r:
    RegistrationPlan)
    ensures
        r == registration_plan(supervision_active, identity_proven, platform@),
{
    if supervision_active {
        RegistrationPlan::RefuseUnderSupervision
    } else if !identity_proven && platform_requires_proven_process_identity(platform) {
        RegistrationPlan::RefuseUnproven
    } else {
        RegistrationPlan::Register
    }
}

/// The refusal of a process while another one is not accounted for, and whether this one has to be
/// watched too, because its end is not proved.
pub fn refuse_under_supervision(cleanup_proven: bool) -> (r: (bool, AgentError))
    ensures
        r.0 == !cleanup_proven,
        r.1@ == (
            AgentErrorKind::Internal,
            "Agent runtime remains fail-closed while an unpersisted process tree is under owned supervision"@,
        ),
{
    (
        !cleanup_proven,
        AgentError::internal(
            "Agent runtime remains fail-closed while an unpersisted process tree is under owned supervision",
        ),
    )
}

/// What became of the evidence of a process whose end is not proved.
#[derive(Debug, Clone, Copy, PartialEq, Eq, Structural)]
pub enum EvidenceOutcome {
    /// It was stored.
    Retained,
    /// It could not be stored, and the process is watched.
    Supervised,
    /// It could not be stored.
    Lost,
}

/// What becomes of the evidence of a process whose end is not proved.
pub open spec fn evidence_kept(stored: bool, process_held: bool) -> EvidenceOutcome {
    if stored {
        EvidenceOutcome::Retained
    } else if process_held {
        EvidenceOutcome::Supervised
    } else {
        EvidenceOutcome::Lost
    }
}

/// What becomes of the evidence of a process whose end is not proved.
pub fn evidence_outcome(stored: bool, process_held: bool) -> (r: EvidenceOutcome)
    ensures
        r == evidence_kept(stored, process_held),
{
    if stored {
        EvidenceOutcome::Retained
    } else if process_held {
        EvidenceOutcome::Supervised
    } else {
        EvidenceOutcome::Lost
    }
}

/// What an error says of the evidence.
pub open spec fn evidence_note(outcome: EvidenceOutcome) -> Seq<char> {
    match outcome {
        EvidenceOutcome::Retained => "; emergency evidence retained"@,
        EvidenceOutcome::Supervised =>
            "; emergency persistence failed and owned runtime supervision is active"@,
        EvidenceOutcome::Lost => "; emergency evidence persistence also failed"@,
    }
}

/// The error that the registration of a process ends with, if it fails.
pub open spec fn registration_fault(
    pid: u32,
    registration: Result<(), Seq<char>>,
    cleanup_proven: bool,
    evidence: EvidenceOutcome,
) -> Option<Seq<char>> {
    match registration {
        Ok(()) => None,
        Err(cause) => if cleanup_proven {
            Some(
                about_process(
                    "Failed to register agent process "@,
                    pid,
                    " in runtime registry: "@ + cause,
                ),
            )
        } else {
            Some(
                about_process(
                    "Failed to register agent process "@,
                    pid,
                    " and process-tree cleanup is unproven"@ + evidence_note(evidence),
                ),
            )
        },
    }
}

/// Whether the evidence of a process has to be stored: where it could not be registered and its
/// end is not proved.
pub fn needs_emergency_evidence(registered: bool, cleanup_proven: bool) -> (r: bool)
    ensures
        r == (!registered && !cleanup_proven),
{
    !registered && !cleanup_proven
}

/// What the registration of a process comes to. A process that could not be registered was ended;
/// where that is not proved, the error says what became of the evidence.
pub fn finish_process_registration(
    pid: u32,
    registration: Result<(), String>,
    cleanup_proven: bool,
    evidence: EvidenceOutcome,
) -> (r: Result<(), AgentError>)
    ensures
        match (
            r,
            registration_fault(
                pid,
                match registration {
                    Ok(()) => Ok(()),
                    Err(cause) => Err(cause@),
                },
                cleanup_proven,
                evidence,
            ),
        ) {
            (Ok(()), None) => true,
            (Err(error), Some(fault)) => error@ == (AgentErrorKind::Internal, fault),
            _ => false,
        },
{
    match registration {
        Ok(()) => Ok(()),
        Err(cause) => {
            let after = if cleanup_proven {
                concat(" in runtime registry: ", cause.as_str())
            } else {
                let note = match evidence {
                    EvidenceOutcome::Retained => "; emergency evidence retained",
                    EvidenceOutcome::Supervised =>
                        "; emergency persistence failed and owned runtime supervision is active",
                    EvidenceOutcome::Lost => "; emergency evidence persistence also failed",
                };
                concat(" and process-tree cleanup is unproven", note)
            };
            let message = process_message("Failed to register agent process ", pid, after.as_str());
            Err(AgentError::internal(message.as_str()))
        },
    }
}

/// What is done next to end a process and its descendants.
#[derive(Debug, Clone, Copy, PartialEq, Eq, Structural)]
pub enum TerminationCommand {
    /// Close its input and give it a moment to exit.
    CloseInput,
    /// Observe it once more, to see whether it may be signalled.
    Observe,
    /// Kill it and its group.
    Kill,
    /// Prove, without a signal, that it and its descendants are gone.
    ProveAbsence,
}

/// How far the end of a process has come.
#[derive(Debug, Clone, Copy, PartialEq, Eq, Structural)]
pub enum TerminationStage {
    Start,
    InGrace,
    Observing,
    Killed,
    Proving,
}

/// How a termination goes on when the moment to exit is over.
pub open spec fn after_grace_period(still_running: bool) -> (TerminationStage, TerminationCommand) {
    if still_running {
        (TerminationStage::Observing, TerminationCommand::Observe)
    } else {
        (TerminationStage::Proving, TerminationCommand::ProveAbsence)
    }
}

/// How a termination goes on once the running process was observed; not at all where it may not be
/// signalled.
pub open spec fn after_observed_birth(fault: Option<Seq<char>>) -> Option<
    (TerminationStage, TerminationCommand),
> {
    match fault {
        None => Some((TerminationStage::Killed, TerminationCommand::Kill)),
        Some(_) => None,
    }
}

/// How a termination goes on once the killed process was waited for; not at all where it did not
/// exit.
pub open spec fn after_signal(exited: bool) -> Option<(TerminationStage, TerminationCommand)> {
    if exited {
        Some((TerminationStage::Proving, TerminationCommand::ProveAbsence))
    } else {
        None
    }
}

/// Ends a process step by step. A process that has exited is never signalled, since its number may
/// have been given to another one; a running one is signalled only once its birth was observed to
/// be the one that was registered.
#[derive(Debug)]
pub struct TerminationRun {
    stage: TerminationStage,
}

impl TerminationRun {
    /// How far the end has come.
    pub closed spec fn stage(&self) -> TerminationStage {
        self.stage
    }

    pub fn new() -> (r: (TerminationRun, TerminationCommand))
        ensures
            r.0.stage() == TerminationStage::InGrace,
            r.1 == TerminationCommand::CloseInput,
    {
        (TerminationRun { stage: TerminationStage::InGrace }, TerminationCommand::CloseInput)
    }

    /// The moment to exit is over.
    pub fn after_grace(&mut self, still_running: bool) -> (r: TerminationCommand)
        requires
            old(self).stage() == TerminationStage::InGrace,
        ensures
            (final(self).stage(), r) == after_grace_period(still_running),
            r == if still_running {
                TerminationCommand::Observe
            } else {
                TerminationCommand::ProveAbsence
            },
            final(self).stage() == if still_running {
                TerminationStage::Observing
            } else {
                TerminationStage::Proving
            },
    {
        if still_running {
            self.stage = TerminationStage::Observing;
            TerminationCommand::Observe
        } else {
            self.stage = TerminationStage::Proving;
            TerminationCommand::ProveAbsence
        }
    }

    /// The running process was observed.
    pub fn after_observation(
        &mut self,
        lease: &RegisteredProcessLease,
        observed: Result<Option<ProcessIdentity>, String>,
    ) -> (r: Result<TerminationCommand, AgentError>)
        requires
            old(self).stage() == TerminationStage::Observing,
        ensures
            match after_observed_birth(
                signal_fault(
                    lease.pid,
                    identity_view(lease.process_identity),
                    observed_view(observed),
                ),
            ) {
                Some((stage, command)) => final(self).stage() == stage && r is Ok && r->Ok_0
                    == command,
                None => r is Err && final(self).stage() == old(self).stage(),
            },
            match (
                r,
                signal_fault(
                    lease.pid,
                    identity_view(lease.process_identity),
                    observed_view(observed),
                ),
            ) {
                (Ok(command), None) => command == TerminationCommand::Kill && final(self).stage()
                    == TerminationStage::Killed,
                (Err(error), Some(fault)) => error@ == (AgentErrorKind::Internal, fault)
                    && *final(self) == *old(self),
                _ => false,
            },
    {
        match lease.revalidate_signal_authority(observed) {
            Ok(()) => {
                self.stage = TerminationStage::Killed;
                Ok(TerminationCommand::Kill)
            },
            Err(error) => Err(error),
        }
    }

    /// The killed process was waited for.
    pub fn after_kill(&mut self, pid: u32, exited: bool) -> (r: Result<
        TerminationCommand,
        AgentError,
    >)
        requires
            old(self).stage() == TerminationStage::Killed,
        ensures
            match after_signal(exited) {
                Some((stage, command)) => final(self).stage() == stage && r is Ok && r->Ok_0
                    == command,
                None => r is Err && final(self).stage() == old(self).stage(),
            },
            match r {
                Ok(command) => exited && command == TerminationCommand::ProveAbsence
                    && final(self).stage() == TerminationStage::Proving,
                Err(error) => !exited && error@ == (
                    AgentErrorKind::Internal,
                    about_process("Process "@, pid, " did not exit after authorized SIGKILL"@),
                ) && *final(self) == *old(self),
            },
    {
        if !exited {
            let message = process_message(
                "Process ",
                pid,
                " did not exit after authorized SIGKILL",
            );
            return Err(AgentError::internal(message.as_str()));
        }
        self.stage = TerminationStage::Proving;
        Ok(TerminationCommand::ProveAbsence)
    }
}

/// A process that is not accounted for anywhere on disk: the data directory it belongs to, its pid
/// and when it was registered.
#[derive(Debug)]
pub struct SupervisionKey {
    pub root: String,
    pub pid: u32,
    pub registered_at_ms: u64,
}

/// Such a process, as text.
pub open spec fn key_view(key: SupervisionKey) -> (Seq<char>, u32, u64) {
    (key.root@, key.pid, key.registered_at_ms)
}

/// The processes that are watched because they are not accounted for anywhere on disk.
#[derive(Debug)]
pub struct UnpersistedSupervision {
    keys: Vec<SupervisionKey>,
}

impl View for UnpersistedSupervision {
    type V = Set<(Seq<char>, u32, u64)>;

    closed spec fn view(&self) -> Set<(Seq<char>, u32, u64)> {
        Set::new(
            |key: (Seq<char>, u32, u64)|
                exists|i: int|
                    0 <= i < self.keys@.len() && key_view(#[trigger] self.keys@[i]) == key,
        )
    }
}

impl UnpersistedSupervision {
    pub fn new() -> (r: Self)
        ensures
            r@ == Set::<(Seq<char>, u32, u64)>::empty(),
    {
        let r = UnpersistedSupervision { keys: Vec::new() };
        assert(r@ =~= Set::<(Seq<char>, u32, u64)>::empty());
        r
    }

    /// Whether a process of a data directory is watched.
    pub fn is_active(&self, root: &str) -> (r: bool)
        ensures
            r == exists|key: (Seq<char>, u32, u64)| #[trigger] self@.contains(key) && key.0 == root@,
    {
        let mut i: usize = 0;
        while i < self.keys.len()
            invariant
                i <= self.keys@.len(),
                forall|j: int| 0 <= j < i ==> (#[trigger] self.keys@[j]).root@ != root@,
            decreases self.keys@.len() - i,
        {
            if same_text(self.keys[i].root.as_str(), root) {
                assert(self@.contains(key_view(self.keys@[i as int])));
                return true;
            }
            i = i + 1;
        }
        false
    }

    /// Watches a process.
    pub fn retain(&mut self, root: &str, pid: u32, registered_at_ms: u64)
        ensures
            final(self)@ == old(self)@.insert((root@, pid, registered_at_ms)),
    {
        let ghost before = self.keys@;
        self.keys.push(SupervisionKey { root: root.to_owned(), pid, registered_at_ms });
        proof {
            let added = (root@, pid, registered_at_ms);
            assert forall|key: (Seq<char>, u32, u64)| self@.contains(key) <==> old(self)@.insert(
                added,
            ).contains(key) by {
                if self@.contains(key) {
                    let i = choose|i: int|
                        0 <= i < self.keys@.len() && key_view(#[trigger] self.keys@[i]) == key;
                    if i < before.len() {
                        assert(before[i] == self.keys@[i]);
                    }
                }
                if old(self)@.contains(key) {
                    let i = choose|i: int|
                        0 <= i < before.len() && key_view(#[trigger] before[i]) == key;
                    assert(self.keys@[i] == before[i]);
                }
                if key == added {
                    assert(key_view(self.keys@[before.len() as int]) == key);
                }
            }
            assert(self@ =~= old(self)@.insert(added));
        }
    }

    /// Stops watching a process, once it and its descendants are proved to be gone.
    pub fn retire(&mut self, root: &str, pid: u32, registered_at_ms: u64)
        ensures
            final(self)@ == old(self)@.remove((root@, pid, registered_at_ms)),
    {
        let ghost gone = (root@, pid, registered_at_ms);
        let mut i: usize = 0;
        while i < self.keys.len()
            invariant
                i <= self.keys@.len(),
                gone == (root@, pid, registered_at_ms),
                forall|j: int| 0 <= j < i ==> key_view(#[trigger] self.keys@[j]) != gone,
                self@.remove(gone) == old(self)@.remove(gone),
            decreases self.keys@.len() - i,
        {
            if self.keys[i].pid == pid && self.keys[i].registered_at_ms == registered_at_ms
                && same_text(self.keys[i].root.as_str(), root) {
                let ghost before = self.keys@;
                let ghost model = self@;
                let _ = self.keys.remove(i);
                proof {
                    assert forall|key: (Seq<char>, u32, u64)| self@.remove(gone).contains(key)
                        <==> model.remove(gone).contains(key) by {
                        if self@.contains(key) {
                            let j = choose|j: int|
                                0 <= j < self.keys@.len() && key_view(#[trigger] self.keys@[j])
                                    == key;
                            let a = if j < i {
                                j
                            } else {
                                j + 1
                            };
                            assert(before[a] == self.keys@[j]);
                        }
                        if model.contains(key) && key != gone {
                            let a = choose|a: int|
                                0 <= a < before.len() && key_view(#[trigger] before[a]) == key;
                            let j = if a < i {
                                a
                            } else {
                                a - 1
                            };
                            assert(self.keys@[j] == before[a]);
                        }
                    }
                    assert(self@.remove(gone) =~= model.remove(gone));
                }
            } else {
                i = i + 1;
            }
        }
        proof {
            assert(!self@.contains(gone));
            assert(self@.remove(gone) =~= self@);
        }
    }
}

/// A registry holds a process once: registering it replaces whatever was there under its pid, adds
/// it after all others, and leaves these in their order.
pub proof fn registering_replaces_the_pid(
    contents: RegistryContents,
    entry: ProcessModel,
    other: ProcessModel,
)
    ensures
        ({
            let after = contents.registered(entry);
            &&& after.version == 2
            &&& after.processes.len() > 0 && after.processes.last() == entry
            &&& after.processes.drop_last().contains(other) <==> contents.processes.contains(other)
                && other.pid != entry.pid
            &&& (forall|i: int|
                0 <= i < contents.processes.len() ==> (#[trigger] contents.processes[i]).pid
                    != entry.pid) ==> after.processes == contents.processes.push(entry)
        }),
{
    let after = contents.registered(entry);
    let kept = contents.processes.filter(|existing: ProcessModel| existing.pid != entry.pid);
    assert(after.processes.drop_last() =~= kept);
    lemma_filter_holds(
        contents.processes,
        |existing: ProcessModel| existing.pid != entry.pid,
        other,
    );
    if forall|i: int|
        0 <= i < contents.processes.len() ==> (#[trigger] contents.processes[i]).pid != entry.pid {
        lemma_filter_keeps_all(
            contents.processes,
            |existing: ProcessModel| existing.pid != entry.pid,
        );
    }
}

proof fn lemma_filter_holds(
    items: Seq<ProcessModel>,
    keep: spec_fn(ProcessModel) -> bool,
    item: ProcessModel,
)
    ensures
        items.filter(keep).contains(item) <==> items.contains(item) && keep(item),
    decreases items.len(),
{
    reveal(Seq::filter);
    if items.len() > 0 {
        let front = items.drop_last();
        lemma_filter_holds(front, keep, item);
        let kept = front.filter(keep);
        let last = items.last();
        if items.contains(item) && item != last {
            let i = choose|i: int| 0 <= i < items.len() && items[i] == item;
            assert(front[i] == item);
        }
        if front.contains(item) {
            let i = choose|i: int| 0 <= i < front.len() && front[i] == item;
            assert(items[i] == item);
        }
        assert(items[items.len() - 1] == last);
        if keep(last) {
            let all = kept.push(last);
            assert(all[all.len() - 1] == last);
            if kept.contains(item) {
                let i = choose|i: int| 0 <= i < kept.len() && kept[i] == item;
                assert(all[i] == item);
            }
            if all.contains(item) && item != last {
                let i = choose|i: int| 0 <= i < all.len() && all[i] == item;
                assert(kept[i] == item);
            }
        }
    }
}

proof fn lemma_filter_keeps_all(items: Seq<ProcessModel>, keep: spec_fn(ProcessModel) -> bool)
    requires
        forall|i: int| 0 <= i < items.len() ==> keep(#[trigger] items[i]),
    ensures
        items.filter(keep) == items,
    decreases items.len(),
{
    reveal(Seq::filter);
    if items.len() > 0 {
        let front = items.drop_last();
        assert forall|i: int| 0 <= i < front.len() implies keep(#[trigger] front[i]) by {
            assert(front[i] == items[i]);
        }
        lemma_filter_keeps_all(front, keep);
        assert(front.push(items.last()) =~= items);
    }
}

/// Removing a registration takes out exactly the entries with its pid, its time and its identity,
/// and leaves the rest in their order.
pub proof fn removal_takes_the_exact_registration(
    contents: RegistryContents,
    pid: u32,
    registered_at_ms: u64,
    identity: Option<IdentityModel>,
    other: ProcessModel,
)
    ensures
        ({
            let after = contents.unregistered(pid, registered_at_ms, identity);
            &&& after.version == contents.version
            &&& after.processes.contains(other) <==> contents.processes.contains(other) && !(
            other.pid == pid && other.registered_at_ms == registered_at_ms && other.identity
                == identity)
            &&& (forall|i: int|
                0 <= i < contents.processes.len() ==> (#[trigger] contents.processes[i]).pid != pid)
                ==> after.processes == contents.processes
        }),
{
    lemma_filter_holds(
        contents.processes,
        |existing: ProcessModel| !existing.is_registration(pid, registered_at_ms, identity),
        other,
    );
    if forall|i: int|
        0 <= i < contents.processes.len() ==> (#[trigger] contents.processes[i]).pid != pid {
        lemma_filter_keeps_all(
            contents.processes,
            |existing: ProcessModel| !existing.is_registration(pid, registered_at_ms, identity),
        );
    }
}

/// What is written of a process is all of it but its command, in the order of the registry.
pub proof fn written_registry_holds_all_else(contents: RegistryContents, i: int)
    requires
        0 <= i < contents.processes.len(),
    ensures
        ({
            let written = contents.scrubbed();
            let process = contents.processes[i];
            &&& written.version == contents.version
            &&& written.processes.len() == contents.processes.len()
            &&& written.processes[i].pid == process.pid
            &&& written.processes[i].process_group_id == process.process_group_id
            &&& written.processes[i].conversation_id == process.conversation_id
            &&& written.processes[i].agent_type == process.agent_type
            &&& written.processes[i].backend == process.backend
            &&& written.processes[i].registered_at_ms == process.registered_at_ms
            &&& written.processes[i].identity == process.identity
        }),
{
}

/// A process is known again by its platform and the time of its birth. Who its parent is and what
/// it runs do not count, since both can change during its life.
pub proof fn process_is_known_by_its_birth(
    first: IdentityModel,
    second: IdentityModel,
    parent_pid: u32,
    executable_path: Seq<char>,
)
    ensures
        first.same_birth(second) <==> first.platform == second.platform && first.start_kind
            == second.start_kind && first.start_value == second.start_value,
        first.same_birth(IdentityModel { parent_pid, executable_path, ..first }),
{
}

/// A process is signalled exactly where it was registered with an identity and the one that is
/// observed now has the same birth. Each refusal says which process it is about and why.
pub proof fn signal_needs_the_registered_birth(
    pid: u32,
    expected: Option<IdentityModel>,
    observed: Result<Option<IdentityModel>, Seq<char>>,
)
    ensures
        ({
            let fault = signal_fault(pid, expected, observed);
            let name = "Process "@ + decimal(pid as nat);
            let seen = observed is Ok && observed->Ok_0 is Some;
            let same = seen && expected is Some && expected->0.same_birth(observed->Ok_0->0);
            &&& fault is None <==> same
            &&& expected is None ==> fault == Some(
                name + " has no proven birth identity; numeric signal authority denied"@,
            )
            &&& expected is Some && observed is Err ==> fault == Some(
                name + (" birth identity could not be revalidated before signal: "@
                    + observed->Err_0),
            )
            &&& expected is Some && observed is Ok && !seen ==> fault == Some(
                name + " birth identity is unavailable before signal"@,
            )
            &&& expected is Some && seen && !same ==> fault == Some(
                name + " birth identity changed before signal; numeric signal authority denied"@,
            )
        }),
{
}

/// A registration is in order exactly where it was stored. One that was not says why where the
/// process was ended, and else what became of its evidence.
pub proof fn failed_registration_says_what_is_left(
    pid: u32,
    registration: Result<(), Seq<char>>,
    cleanup_proven: bool,
    evidence: EvidenceOutcome,
)
    ensures
        ({
            let fault = registration_fault(pid, registration, cleanup_proven, evidence);
            let name = "Failed to register agent process "@ + decimal(pid as nat);
            let unproven = " and process-tree cleanup is unproven"@;
            &&& fault is None <==> registration is Ok
            &&& registration is Err && cleanup_proven ==> fault == Some(
                name + (" in runtime registry: "@ + registration->Err_0),
            )
            &&& registration is Err && !cleanup_proven && evidence is Retained ==> fault == Some(
                name + (unproven + "; emergency evidence retained"@),
            )
            &&& registration is Err && !cleanup_proven && evidence is Supervised ==> fault == Some(
                name + (unproven
                    + "; emergency persistence failed and owned runtime supervision is active"@),
            )
            &&& registration is Err && !cleanup_proven && evidence is Lost ==> fault == Some(
                name + (unproven + "; emergency evidence persistence also failed"@),
            )
        }),
{
}

/// A character is found at its last place in a text, and nowhere exactly where it is not there.
pub proof fn last_place_of_a_character(s: Seq<char>, c: char)
    ensures
        last_position(s, c) matches Some(at) ==> at < s.len() && s[at as int] == c && forall|i: int|
            at < i < s.len() ==> #[trigger] s[i] != c,
        last_position(s, c) is None <==> forall|i: int| 0 <= i < s.len() ==> #[trigger] s[i] != c,
    decreases s.len(),
{
    if s.len() > 0 && s.last() != c {
        let front = s.drop_last();
        last_place_of_a_character(front, c);
        assert forall|i: int| 0 <= i < front.len() implies #[trigger] s[i] == front[i] by {}
        if last_position(front, c) is None {
            assert forall|i: int| 0 <= i < s.len() implies #[trigger] s[i] != c by {
                if i < front.len() {
                    assert(front[i] != c);
                }
            }
        } else {
            let at = last_position(front, c)->0;
            assert forall|i: int| at < i < s.len() implies #[trigger] s[i] != c by {
                if i < front.len() {
                    assert(front[i] != c);
                }
            }
        }
    } else if s.len() > 0 {
        assert(s[s.len() - 1] == c);
    }
}

/// What a process is called has no influence on what its entry in the process table says of it,
/// even where the name holds blanks or parentheses.
pub proof fn name_of_a_process_has_no_influence(
    first: Seq<char>,
    second: Seq<char>,
    fields: Seq<char>,
)
    requires
        forall|i: int| 0 <= i < fields.len() ==> #[trigger] fields[i] != ')',
    ensures
        parsed_stat(first + seq![')'] + fields) == parsed_stat(second + seq![')'] + fields),
        stat_fields(first + seq![')'] + fields) == Some(words(Separator::White, fields)),
{
    lemma_stat_fields(first, fields);
    lemma_stat_fields(second, fields);
}

proof fn lemma_stat_fields(name: Seq<char>, fields: Seq<char>)
    requires
        forall|i: int| 0 <= i < fields.len() ==> #[trigger] fields[i] != ')',
    ensures
        stat_fields(name + seq![')'] + fields) == Some(words(Separator::White, fields)),
{
    let stat = name + seq![')'] + fields;
    last_place_of_a_character(stat, ')');
    assert(stat[name.len() as int] == ')');
    let at = last_position(stat, ')')->0;
    if at > name.len() {
        assert(stat[at as int] == fields[at - name.len() - 1]);
    }
    assert(stat.subrange(at as int + 1, stat.len() as int) =~= fields);
}

/// An entry of the process table is read from the words after the name: the second is the parent,
/// the third the group, and the twentieth the start. It is read exactly where these three are
/// there and are numbers in range.
pub proof fn process_table_entry_is_read_by_position(stat: Seq<char>)
    ensures
        ({
            let parsed = parsed_stat(stat);
            let fields = stat_fields(stat)->0;
            &&& stat_fields(stat) is None <==> forall|i: int|
                0 <= i < stat.len() ==> #[trigger] stat[i] != ')'
            &&& parsed is Ok <==> stat_fields(stat) is Some && fields.len() >= 20 && unsigned(
                fields[1],
                u32::MAX as u64,
            ) is Some && unsigned(fields[2], u32::MAX as u64) is Some && unsigned(
                fields[19],
                u64::MAX,
            ) is Some
            &&& parsed is Ok ==> {
                &&& unsigned(fields[1], u32::MAX as u64) == Some(parsed->Ok_0.parent_pid as u64)
                &&& unsigned(fields[2], u32::MAX as u64) == Some(
                    parsed->Ok_0.process_group_id as u64,
                )
                &&& unsigned(fields[19], u64::MAX) == Some(parsed->Ok_0.start_time_ticks)
            }
        }),
{
    last_place_of_a_character(stat, ')');
    if stat_fields(stat) is Some {
        let fields = stat_fields(stat)->0;
        if fields.len() >= 20 {
            lemma_unsigned_in_range(fields[1], u32::MAX as u64);
            lemma_unsigned_in_range(fields[2], u32::MAX as u64);
        }
    }
}

proof fn lemma_unsigned_in_range(s: Seq<char>, max: u64)
    ensures
        unsigned(s, max) is Some ==> unsigned(s, max)->0 <= max,
{
}

/// A number may carry a plus sign, which does not count.
pub proof fn plus_sign_does_not_count(s: Seq<char>, max: u64)
    ensures
        s.len() > 0 && s[0] != '+' ==> unsigned(seq!['+'] + s, max) == unsigned(s, max),
        s.len() == 0 || s[0] != '+' ==> unsigned(s, max) == number_of(s, max),
{
    assert((seq!['+'] + s).drop_first() =~= s);
}

/// A process is the expected one exactly where its parent is, and its group where one is expected.
/// The refusal says what was expected and what was observed.
pub proof fn parentage_is_checked(
    expected_parent: u32,
    observed_parent: u32,
    expected_group: Option<u32>,
    observed_group: u32,
)
    ensures
        ({
            let fault = parentage_fault(
                expected_parent,
                observed_parent,
                expected_group,
                observed_group,
            );
            &&& fault is None <==> expected_parent == observed_parent && (expected_group is None
                || expected_group == Some(observed_group))
            &&& expected_parent != observed_parent ==> fault == Some(
                "process parent changed during registration: expected "@ + decimal(
                    expected_parent as nat,
                ) + ", observed "@ + decimal(observed_parent as nat),
            )
            &&& expected_parent == observed_parent && fault is Some ==> fault == Some(
                "process group changed during registration: expected "@ + decimal(
                    expected_group->0 as nat,
                ) + ", observed "@ + decimal(observed_group as nat),
            )
        }),
{
}

/// A Darwin process is taken exactly where the answer is about it, its parent and group are the
/// expected ones, its path is absolute and its start fits. The start is counted in microseconds.
pub proof fn darwin_process_is_checked(
    pid: u32,
    info: DarwinProcessInfo,
    executable_path: Seq<char>,
    expected_group: Option<u32>,
    expected_parent: u32,
)
    ensures
        ({
            let fault = darwin_fault(pid, info, executable_path, expected_group, expected_parent);
            let start = info.start_seconds * 1_000_000 + info.start_microseconds;
            &&& fault is None <==> info.pid == pid && info.parent_pid == expected_parent && (
            expected_group is None || expected_group == Some(info.process_group_id))
                && executable_path.len() > 0 && executable_path[0] == '/' && start <= u64::MAX
            &&& start <= u64::MAX ==> darwin_start(info) == Some(start as nat)
            &&& start > u64::MAX ==> darwin_start(info) is None
        }),
{
    reveal_strlit("/");
    if executable_path.len() > 0 {
        assert(executable_path.subrange(0, 1)[0] == executable_path[0]);
        if executable_path[0] == '/' {
            assert(executable_path.subrange(0, 1) =~= "/"@);
        }
    }
}

/// The two halves of a Windows time are put together with the high one first.
pub proof fn windows_time_has_a_high_and_a_low_half(high: u32, low: u32)
    ensures
        windows_filetime(high, low) / 0x1_0000_0000 == high,
        windows_filetime(high, low) % 0x1_0000_0000 == low,
{
}

/// Evidence is kept under the time and the pid of its process.
pub proof fn evidence_is_named_by_its_process(registered_at_ms: u64, pid: u32)
    ensures
        ({
            let name = evidence_file(registered_at_ms, pid);
            let time = decimal(registered_at_ms as nat);
            let number = decimal(pid as nat);
            &&& name.len() == 20 + time.len() + number.len()
            &&& occurs_at(name, "agent-process-"@, 0)
            &&& occurs_at(name, time, 14)
            &&& occurs_at(name, "-"@, 14 + time.len() as int)
            &&& occurs_at(name, number, 15 + time.len() as int)
            &&& occurs_at(name, ".json"@, 15 + time.len() as int + number.len() as int)
        }),
{
    let name = evidence_file(registered_at_ms, pid);
    let time = decimal(registered_at_ms as nat);
    let number = decimal(pid as nat);
    reveal_strlit("agent-process-");
    reveal_strlit("-");
    reveal_strlit(".json");
    assert(name.subrange(0, 14) =~= "agent-process-"@);
    assert(name.subrange(14, 14 + time.len() as int) =~= time);
    let second = 14 + time.len() as int;
    assert(name.subrange(second, second + 1) =~= "-"@);
    assert(name.subrange(second + 1, second + 1 + number.len()) =~= number);
    let end = second + 1 + number.len() as int;
    assert(name.subrange(end, end + 5) =~= ".json"@);
}

/// A path below a directory is the directory, one slash and the path. Below no directory it is the
/// path itself.
pub proof fn path_lies_below_its_directory(directory: Seq<char>, relative: Seq<char>)
    ensures
        below(Seq::empty(), relative) == relative,
        directory.len() > 0 && directory.last() != '/' ==> below(directory, relative) == directory
            + seq!['/'] + relative,
        directory.len() > 0 && directory.last() == '/' ==> below(directory, relative) == directory
            + relative,
{
    reveal_strlit("/");
    assert("/"@ =~= seq!['/']);
}

/// A data directory is known by its normal form on Windows and by its path elsewhere. Other
/// platforms have no key.
pub proof fn directory_is_known_by_its_platform(platform: Seq<char>, canonical: Seq<char>)
    ensures
        ({
            let parts = key_parts(platform, canonical);
            let windows = platform == "windows"@ || platform == "win32"@;
            let posix = platform == "macos"@ || platform == "darwin"@ || platform == "linux"@;
            let normal = normalized_windows_path(canonical);
            &&& windows && normal is Some ==> parts == Ok::<
                (Seq<char>, Seq<char>),
                (EvidenceErrorKind, Seq<char>),
            >(("windows"@, normal->0))
            &&& windows && normal is None ==> parts == Err::<
                (Seq<char>, Seq<char>),
                (EvidenceErrorKind, Seq<char>),
            >(
                (
                    EvidenceErrorKind::InvalidData,
                    "canonical Windows data directory has an invalid absolute form"@,
                ),
            )
            &&& posix ==> parts == Ok::<(Seq<char>, Seq<char>), (EvidenceErrorKind, Seq<char>)>(
                ("posix"@, canonical),
            )
            &&& !windows && !posix ==> parts == Err::<
                (Seq<char>, Seq<char>),
                (EvidenceErrorKind, Seq<char>),
            >(
                (
                    EvidenceErrorKind::Unsupported,
                    "unsupported platform for external process evidence"@,
                ),
            )
        }),
{
    reveal_strlit("windows");
    reveal_strlit("win32");
    reveal_strlit("macos");
    reveal_strlit("darwin");
    reveal_strlit("linux");
    assert("windows"@.len() == 7 && "win32"@.len() == 5 && "macos"@.len() == 5 && "darwin"@.len()
        == 6 && "linux"@.len() == 5);
    assert("win32"@[0] == 'w' && "macos"@[0] == 'm' && "linux"@[0] == 'l');
}

/// The text behind a key tells platforms and directories apart: it is the same for two of them only
/// where platform and path are.
pub proof fn keys_tell_directories_apart(
    platform: Seq<char>,
    path: Seq<char>,
    other_platform: Seq<char>,
    other_path: Seq<char>,
)
    requires
        forall|i: int| 0 <= i < platform.len() ==> #[trigger] platform[i] != '\0',
        forall|i: int| 0 <= i < other_platform.len() ==> #[trigger] other_platform[i] != '\0',
        key_text(platform, path) == key_text(other_platform, other_path),
    ensures
        platform == other_platform,
        path == other_path,
        begins_with(
            key_text(platform, path),
            "command-eve-agent-process-registry-external-key/v1"@,
        ),
{
    let domain = "command-eve-agent-process-registry-external-key/v1"@;
    let n = domain.len() as int;
    let text = key_text(platform, path);
    let other = key_text(other_platform, other_path);
    assert(text.subrange(0, n) =~= domain);
    assert(text[n + 1 + platform.len()] == '\0');
    assert(other[n + 1 + other_platform.len()] == '\0');
    if platform.len() < other_platform.len() {
        assert(other[n + 1 + platform.len()] == other_platform[platform.len() as int]);
    }
    if other_platform.len() < platform.len() {
        assert(text[n + 1 + other_platform.len()] == platform[other_platform.len() as int]);
    }
    let m = platform.len() as int;
    assert(text.subrange(n + 1, n + 1 + m) =~= platform);
    assert(other.subrange(n + 1, n + 1 + m) =~= other_platform);
    assert(text.subrange(n + 2 + m, text.len() as int) =~= path);
    assert(other.subrange(n + 2 + m, other.len() as int) =~= other_path);
}

/// A path in the normal form of Windows is its own normal form.
pub proof fn normal_windows_path_is_kept(path: Seq<char>)
    requires
        is_normal_windows_path(path),
        starts_with_drive(path) || names_share(path),
    ensures
        normalized_windows_path(path) == Some(path),
{
    reveal_strlit("\\\\?\\UNC\\");
    reveal_strlit("\\\\?\\");
    let unc = "\\\\?\\UNC\\"@;
    let plain = "\\\\?\\"@;
    assert(path[0] != '\\');
    if begins_with(path, unc) {
        assert(path.subrange(0, unc.len() as int)[0] == path[0]);
    }
    if begins_with(path, plain) {
        assert(path.subrange(0, plain.len() as int)[0] == path[0]);
    }
    assert(lower_all(slashed(path)) =~= path) by {
        assert forall|i: int| 0 <= i < path.len() implies #[trigger] lower_all(slashed(path))[i]
            == path[i] by {
            assert(path[i] != '\\');
        }
    }
    lemma_trailing_slashes(path);
    let bare = without_trailing_slashes(path);
    if bare.len() < path.len() {
        assert(path[path.len() - 1] == '/');
    }
    assert(bare =~= path);
}

/// On Windows a path on a drive has one normal form, however its letters are cased and whichever
/// slashes it has.
pub proof fn spelling_of_a_drive_path_does_not_count(path: Seq<char>, other: Seq<char>)
    requires
        path.len() >= 2,
        path[1] == ':',
        path[0] != '\\',
        other.len() == path.len(),
        other[0] != '\\',
        forall|i: int|
            0 <= i < path.len() ==> lower(#[trigger] path[i]) == lower(other[i]) || (path[i] == '/'
                && other[i] == '\\') || (path[i] == '\\' && other[i] == '/'),
    ensures
        normalized_windows_path(path) == normalized_windows_path(other),
{
    reveal_strlit("\\\\?\\UNC\\");
    reveal_strlit("\\\\?\\");
    let unc = "\\\\?\\UNC\\"@;
    let plain = "\\\\?\\"@;
    if begins_with(path, unc) {
        assert(path.subrange(0, unc.len() as int)[0] == path[0]);
    }
    if begins_with(path, plain) {
        assert(path.subrange(0, plain.len() as int)[0] == path[0]);
    }
    if begins_with(other, unc) {
        assert(other.subrange(0, unc.len() as int)[0] == other[0]);
    }
    if begins_with(other, plain) {
        assert(other.subrange(0, plain.len() as int)[0] == other[0]);
    }
    assert forall|i: int| 0 <= i < path.len() implies #[trigger] lower_all(slashed(path))[i]
        == lower_all(slashed(other))[i] by {
        lemma_lower_slash(path[i], other[i]);
    }
    assert(lower_all(slashed(path)) =~= lower_all(slashed(other)));
}

proof fn lemma_lower_slash(a: char, b: char)
    ensures
        lower(a) == lower(b) ==> (a == '\\' <==> b == '\\'),
        lower('/') == '/',
{
}

/// The namespace of a share is dropped: the path names the share as it would without it.
pub proof fn namespace_of_a_share_is_dropped(rest: Seq<char>)
    requires
        rest.len() > 0,
        rest[0] != '?',
    ensures
        normalized_windows_path("\\\\?\\UNC\\"@ + rest) == normalized_windows_path(
            "\\\\"@ + rest,
        ),
{
    reveal_strlit("\\\\?\\UNC\\");
    reveal_strlit("\\\\?\\");
    reveal_strlit("\\\\");
    let unc = "\\\\?\\UNC\\"@;
    let plain = "\\\\?\\"@;
    let path = unc + rest;
    let share = "\\\\"@ + rest;
    assert(path.subrange(0, unc.len() as int) =~= unc);
    assert(path.subrange(unc.len() as int, path.len() as int) =~= rest);
    assert(share[2] == rest[0]);
    if begins_with(share, unc) {
        assert(share.subrange(0, unc.len() as int)[2] == share[2]);
    }
    if begins_with(share, plain) {
        assert(share.subrange(0, plain.len() as int)[2] == share[2]);
    }
}

/// A path on Windows has a normal form exactly where it lies on a drive or a share and does not
/// lead up through a parent directory.
pub proof fn windows_paths_are_absolute(path: Seq<char>)
    requires
        !begins_with(path, "\\\\?\\"@),
        !begins_with(path, "\\\\?\\UNC\\"@),
    ensures
        ({
            let spelled = lower_all(slashed(path));
            &&& normalized_windows_path(path) is Some <==> (starts_with_drive(spelled)
                || names_share(spelled)) && !(exists|at: int| occurs_at(spelled, "/../"@, at))
                && !occurs_at(spelled, "/.."@, spelled.len() - 3)
            &&& normalized_windows_path(path) is Some ==> normalized_windows_path(path)
                == Some(without_trailing_slashes(spelled))
            &&& forall|i: int| 0 <= i < path.len() ==> (#[trigger] spelled[i] == '/' <==> path[i]
                == '/' || path[i] == '\\')
            &&& spelled.len() == path.len()
        }),
{
    reveal_strlit("/..");
    let spelled = lower_all(slashed(path));
    assert forall|i: int| 0 <= i < path.len() implies (#[trigger] spelled[i] == '/' <==> path[i]
        == '/' || path[i] == '\\') by {
        lemma_lowered_slash(path[i]);
    }
}

proof fn lemma_lowered_slash(c: char)
    ensures
        lower(c) == '/' <==> c == '/',
{
}

/// A path is on a drive exactly where a letter and a colon begin it.
pub proof fn drives_have_a_letter(path: Seq<char>)
    ensures
        starts_with_drive(path) <==> path.len() >= 2 && path[1] == ':' && 'a' <= path[0]
            && path[0] <= 'z',
        is_rooted(path) <==> path.len() > 0 && path[0] == '/',
{
    reveal_strlit("/");
    if path.len() > 0 {
        assert(path.subrange(0, 1)[0] == path[0]);
        if path[0] == '/' {
            assert(path.subrange(0, 1) =~= "/"@);
        }
    }
}

/// A process is registered exactly where no other one is unaccounted for and, on Windows, its
/// identity is proved. That another one is unaccounted for counts first.
pub proof fn process_is_registered_when_accounted_for(
    supervision_active: bool,
    identity_proven: bool,
    platform: Seq<char>,
)
    ensures
        ({
            let plan = registration_plan(supervision_active, identity_proven, platform);
            &&& plan is Register <==> !supervision_active && (identity_proven || platform
                != "windows"@)
            &&& plan is RefuseUnderSupervision <==> supervision_active
        }),
{
}

/// Evidence that was stored is retained, else its process is supervised where it is held, and else
/// it is lost.
pub proof fn evidence_is_retained_or_supervised(stored: bool, process_held: bool)
    ensures
        evidence_kept(stored, process_held) is Retained <==> stored,
        evidence_kept(stored, process_held) is Supervised <==> !stored && process_held,
        evidence_kept(stored, process_held) is Lost <==> !stored && !process_held,
{
}

/// What a process is known by on each platform: on Linux the boot and the tick of its start, on
/// Darwin the microsecond, on Windows the time in tenths of microseconds. Two starts that differ
/// give different identities.
pub proof fn identities_of_the_platforms(
    fields: LinuxProcStatIdentity,
    other: LinuxProcStatIdentity,
    boot_id: Seq<char>,
    info: DarwinProcessInfo,
    high: u32,
    low: u32,
    path: Seq<char>,
    parent_pid: u32,
)
    ensures
        ({
            let linux = linux_identity(fields, boot_id, path);
            &&& linux.platform == "linux"@
            &&& linux.start_kind == "linux_boot_ticks"@
            &&& linux.start_value == trim(boot_id) + seq![':'] + decimal(
                fields.start_time_ticks as nat,
            )
            &&& linux.parent_pid == fields.parent_pid
            &&& linux.executable_path == path
            &&& linux.same_birth(linux_identity(other, boot_id, path)) ==> fields.start_time_ticks
                == other.start_time_ticks
        }),
        ({
            let darwin = darwin_identity(info, path);
            &&& darwin.platform == "darwin"@
            &&& darwin.start_kind == "unix_epoch_us"@
            &&& info.start_seconds * 1_000_000 + info.start_microseconds <= u64::MAX
                ==> darwin.start_value == decimal(
                (info.start_seconds * 1_000_000 + info.start_microseconds) as nat,
            )
            &&& darwin.parent_pid == info.parent_pid
            &&& darwin.executable_path == path
        }),
        ({
            let windows = windows_identity(high, low, path, parent_pid);
            &&& windows.platform == "win32"@
            &&& windows.start_kind == "windows_filetime_100ns"@
            &&& windows.start_value == decimal((high * 0x1_0000_0000 + low) as nat)
            &&& windows.parent_pid == parent_pid
            &&& windows.executable_path == path
        }),
{
    reveal_strlit(":");
    assert(":"@ =~= seq![':']);
    let first = linux_identity(fields, boot_id, path);
    let second = linux_identity(other, boot_id, path);
    if first.same_birth(second) {
        let n = trim(boot_id).len() as int + 1;
        let a = decimal(fields.start_time_ticks as nat);
        let b = decimal(other.start_time_ticks as nat);
        assert(first.start_value.subrange(n, first.start_value.len() as int) =~= a);
        assert(second.start_value.subrange(n, second.start_value.len() as int) =~= b);
        decimal_text_reads_back(fields.start_time_ticks as nat);
        decimal_text_reads_back(other.start_time_ticks as nat);
    }
}

/// A process has no identity where its boot, its path or its start cannot be trusted, and is told
/// which, in this order.
pub proof fn untrusted_processes_have_no_identity(
    boot_id: Seq<char>,
    path: Seq<char>,
    high: u32,
    low: u32,
    path_is_absolute: bool,
)
    ensures
        ({
            let fault = linux_fault(boot_id, path);
            let booted = is_uuid_text(trim(boot_id));
            &&& fault is None <==> booted && path.len() > 0 && path[0] == '/'
            &&& !booted ==> fault == Some("Linux boot id is empty or malformed"@)
            &&& booted && !(path.len() > 0 && path[0] == '/') ==> fault == Some(
                "process path is not absolute UTF-8"@,
            )
        }),
        ({
            let fault = windows_fault(high, low, path, path_is_absolute);
            let placed = path.len() > 0 && path_is_absolute;
            &&& fault is None <==> placed && !(high == 0 && low == 0)
            &&& !placed ==> fault == Some("Windows process path is empty or not absolute"@)
            &&& placed && high == 0 && low == 0 ==> fault == Some(
                "Windows process creation time is zero"@,
            )
        }),
{
    drives_have_a_letter(path);
}

/// A process is killed only where it still runs after its moment to exit and was observed to have
/// the birth that was registered. Whether it exited by itself or was killed, its absence is proved
/// last, and a process that does not exit gets no proof.
pub proof fn kill_follows_an_observed_birth(
    still_running: bool,
    pid: u32,
    expected: Option<IdentityModel>,
    observed: Result<Option<IdentityModel>, Seq<char>>,
    exited: bool,
)
    ensures
        after_grace_period(still_running).1 != TerminationCommand::Kill,
        after_grace_period(still_running).1 == TerminationCommand::Observe <==> still_running,
        after_grace_period(still_running).1 == TerminationCommand::ProveAbsence <==> !still_running,
        after_grace_period(true).0 is Observing,
        after_grace_period(false).0 is Proving,
        ({
            let next = after_observed_birth(signal_fault(pid, expected, observed));
            &&& next is Some <==> expected is Some && observed is Ok && observed->Ok_0 is Some
                && expected->0.same_birth(observed->Ok_0->0)
            &&& next is Some ==> next == Some((TerminationStage::Killed, TerminationCommand::Kill))
        }),
        after_signal(exited) is Some <==> exited,
        exited ==> after_signal(exited) == Some(
            (TerminationStage::Proving, TerminationCommand::ProveAbsence),
        ),
{
}

} // verus!
