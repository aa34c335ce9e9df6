//! The classification of what an agent asks permission for. Only what a request binds
//! structurally is trusted; whatever fits no class stays unknown.
use vstd::prelude::*;

use crate::json::{json_view, Json, JsonValue};
use crate::permission_authority::{OperationClass, TrustedClassification};
use crate::permission_request::{PermissionRequestModel, RequestPermissionRequest, ToolKind};
use crate::text::{
    begins_with, begins_with_text, char_lists, chars_are, chars_of, contains, contains_text,
    copy_range, join, join_chars, lemma_trimmed_words, lower_all, lower_chars, occurs_at, push_all,
    same_text, split_words, str_view, string_of, text_view, trim, trim_chars, words, Separator,
};

verus! {

/// A character that a shell does not take literally.
pub open spec fn is_shell_char(c: char) -> bool {
    ||| c == '&'
    ||| c == '|'
    ||| c == ';'
    ||| c == '`'
    ||| c == '$'
    ||| c == '>'
    ||| c == '<'
    ||| c == '\n'
    ||| c == '\r'
    ||| c == '\''
    ||| c == '"'
    ||| c == '\\'
    ||| c == '*'
    ||| c == '?'
    ||| c == '['
    ||| c == ']'
    ||| c == '{'
    ||| c == '}'
    ||| c == '('
    ||| c == ')'
    ||| c == '~'
    ||| c == '#'
    ||| c == '!'
}

/// Whether a command needs a shell to be understood.
pub open spec fn needs_shell(command: Seq<char>) -> bool {
    exists|i: int| 0 <= i < command.len() && is_shell_char(#[trigger] command[i])
}

fn has_shell_syntax(command: &[char]) -> (r: bool)
    ensures
        r == needs_shell(command@),
{
    let mut i: usize = 0;
    while i < command.len()
        invariant
            i <= command@.len(),
            forall|j: int| 0 <= j < i ==> !is_shell_char(#[trigger] command@[j]),
        decreases command@.len() - i,
    {
        let c = command[i];
        if c == '&' || c == '|' || c == ';' || c == '`' || c == '$' || c == '>' || c == '<' || c
            == '\n' || c == '\r' || c == '\'' || c == '"' || c == '\\' || c == '*' || c == '?' || c
            == '[' || c == ']' || c == '{' || c == '}' || c == '(' || c == ')' || c == '~' || c
            == '#' || c == '!' {
            return true;
        }
        i = i + 1;
    }
    false
}

/// Whether a command does what is never allowed.
pub open spec fn is_destructive(command: Seq<char>) -> bool {
    ||| contains(command, "rm -rf /"@)
    ||| contains(command, "rm -fr /"@)
    ||| contains(command, "mkfs"@)
    ||| contains(command, "diskutil erase"@)
    ||| contains(command, ":(){ :|:& };:"@)
    ||| contains(command, "chmod -r 777 /"@)
}

/// Whether a command does what only the founder may allow.
pub open spec fn is_founder_gated(command: Seq<char>) -> bool {
    ||| contains(command, "notarytool submit"@)
    ||| contains(command, "eve-update-proxy"@)
    ||| contains(command, "r2 object put"@)
    ||| contains(command, "production rollback"@)
    ||| contains(command, "founder-gate"@)
}

/// Whether a command publishes something, which the proxy may allow.
pub open spec fn is_publishing(command: Seq<char>) -> bool {
    ||| contains(command, "git push"@)
    ||| contains(command, "gh pr merge"@)
    ||| contains(command, "npm publish"@)
    ||| contains(command, "cargo publish"@)
    ||| contains(command, "wrangler deploy"@)
    ||| contains(command, "vercel deploy"@)
    ||| contains(command, "release upload"@)
}

/// Whether a command reaches out or touches secrets, which its owner may allow.
pub open spec fn is_sensitive_command(command: Seq<char>) -> bool {
    ||| contains(command, "curl "@)
    ||| contains(command, "wget "@)
    ||| contains(command, "ssh "@)
    ||| contains(command, "scp "@)
    ||| contains(command, "sudo "@)
    ||| contains(command, "security find-"@)
    ||| contains(command, ".env"@)
    ||| contains(command, "keychain"@)
    ||| contains(command, "docker run"@)
    ||| contains(command, "npm install"@)
    ||| contains(command, "pnpm add"@)
    ||| contains(command, "pip install"@)
}

/// A command in lower case, with single spaces between its words.
pub open spec fn normalized_command(command: Seq<char>) -> Seq<char> {
    lower_all(join(words(Separator::White, command), " "@))
}

/// What the words of a command say of its class, if they say anything.
pub open spec fn escalated_class(command: Seq<char>) -> Option<OperationClass> {
    if is_destructive(command) {
        Some(OperationClass::HardBlocked)
    } else if is_founder_gated(command) {
        Some(OperationClass::Hg4)
    } else if is_publishing(command) {
        Some(OperationClass::Hg35)
    } else if is_sensitive_command(command) {
        Some(OperationClass::Sensitive)
    } else {
        None
    }
}

fn escalate(command: &[char]) -> (r: Option<OperationClass>)
    ensures
        r == escalated_class(command@),
{
    if contains_text(command, "rm -rf /") || contains_text(command, "rm -fr /") || contains_text(
        command,
        "mkfs",
    ) || contains_text(command, "diskutil erase") || contains_text(command, ":(){ :|:& };:")
        || contains_text(command, "chmod -r 777 /") {
        return Some(OperationClass::HardBlocked);
    }
    if contains_text(command, "notarytool submit") || contains_text(command, "eve-update-proxy")
        || contains_text(command, "r2 object put") || contains_text(command, "production rollback")
        || contains_text(command, "founder-gate") {
        return Some(OperationClass::Hg4);
    }
    if contains_text(command, "git push") || contains_text(command, "gh pr merge")
        || contains_text(command, "npm publish") || contains_text(command, "cargo publish")
        || contains_text(command, "wrangler deploy") || contains_text(command, "vercel deploy")
        || contains_text(command, "release upload") {
        return Some(OperationClass::Hg35);
    }
    if contains_text(command, "curl ") || contains_text(command, "wget ") || contains_text(
        command,
        "ssh ",
    ) || contains_text(command, "scp ") || contains_text(command, "sudo ") || contains_text(
        command,
        "security find-",
    ) || contains_text(command, ".env") || contains_text(command, "keychain") || contains_text(
        command,
        "docker run",
    ) || contains_text(command, "npm install") || contains_text(command, "pnpm add")
        || contains_text(command, "pip install") {
        return Some(OperationClass::Sensitive);
    }
    None
}

/// What follows the last slash of a text.
pub open spec fn base_name(s: Seq<char>) -> Seq<char>
    decreases s.len(),
{
    if s.len() == 0 || s.last() == '/' {
        Seq::empty()
    } else {
        base_name(s.drop_last()).push(s.last())
    }
}

fn base_name_of(s: &[char]) -> (r: Vec<char>)
    ensures
        r@ == base_name(s@),
{
    let mut from: usize = s.len();
    while from > 0 && s[from - 1] != '/'
        invariant
            from <= s@.len(),
            forall|i: int| from <= i < s@.len() ==> #[trigger] s@[i] != '/',
        decreases from,
    {
        from = from - 1;
    }
    proof {
        lemma_base_name(s@, from as int);
    }
    copy_range(s, from, s.len())
}

proof fn lemma_base_name(s: Seq<char>, from: int)
    requires
        0 <= from <= s.len(),
        from > 0 ==> s[from - 1] == '/',
        forall|i: int| from <= i < s.len() ==> #[trigger] s[i] != '/',
    ensures
        base_name(s) == s.subrange(from, s.len() as int),
    decreases s.len(),
{
    if s.len() == from {
        assert(s.subrange(from, s.len() as int) =~= Seq::<char>::empty());
    } else {
        assert(s[s.len() - 1] != '/');
        let front = s.drop_last();
        assert forall|i: int| from <= i < front.len() implies #[trigger] front[i] != '/' by {
            assert(front[i] == s[i]);
        }
        lemma_base_name(front, from);
        assert(front.subrange(from, front.len() as int).push(s.last()) =~= s.subrange(
            from,
            s.len() as int,
        ));
    }
}

/// A listing flag that only shapes the output.
pub open spec fn is_list_flag(c: char) -> bool {
    c == 'a' || c == 'A' || c == 'l' || c == 'h' || c == 'n' || c == 'd' || c == '1'
}

/// A word made of a dash and listing flags.
pub open spec fn is_list_option(word: Seq<char>) -> bool {
    &&& begins_with(word, "-"@)
    &&& !begins_with(word, "--"@)
    &&& forall|i: int| 1 <= i < word.len() ==> is_list_flag(#[trigger] word[i])
}

/// Whether a command only shows where the agent is, or what is in that directory.
pub open spec fn is_routine(command: Seq<char>) -> bool {
    let parts = words(Separator::White, command);
    &&& !needs_shell(command)
    &&& parts.len() > 0
    &&& {
        ||| base_name(parts[0]) == "pwd"@ && parts.len() == 1
        ||| base_name(parts[0]) == "ls"@ && forall|i: int|
            1 <= i < parts.len() ==> is_list_option(#[trigger] parts[i])
    }
}

fn has_list_flags(word: &[char]) -> (r: bool)
    ensures
        r == is_list_option(word@),
{
    if !begins_with_text(word, "-") || begins_with_text(word, "--") {
        return false;
    }
    let mut i: usize = 1;
    while i < word.len()
        invariant
            1 <= i,
            forall|j: int| 1 <= j < i && j < word@.len() ==> is_list_flag(#[trigger] word@[j]),
        decreases word@.len() - i,
    {
        let c = word[i];
        if !(c == 'a' || c == 'A' || c == 'l' || c == 'h' || c == 'n' || c == 'd' || c == '1') {
            return false;
        }
        i = i + 1;
    }
    true
}

fn is_routine_command(command: &[char]) -> (r: bool)
    ensures
        r == is_routine(command@),
{
    if has_shell_syntax(command) {
        return false;
    }
    let parts = split_words(Separator::White, command);
    assert forall|i: int| 0 <= i < parts@.len() implies #[trigger] char_lists(parts@)[i]
        == parts@[i]@ by {}
    if parts.len() == 0 {
        return false;
    }
    let executable = base_name_of(parts[0].as_slice());
    if chars_are(executable.as_slice(), "pwd") {
        proof {
            reveal_strlit("pwd");
            reveal_strlit("ls");
            assert("pwd"@.len() != "ls"@.len());
        }
        return parts.len() == 1;
    }
    if !chars_are(executable.as_slice(), "ls") {
        return false;
    }
    let mut i: usize = 1;
    while i < parts.len()
        invariant
            1 <= i <= parts@.len(),
            char_lists(parts@) == words(Separator::White, command@),
            forall|j: int|
                1 <= j < i ==> is_list_option(#[trigger] words(Separator::White, command@)[j]),
        decreases parts@.len() - i,
    {
        assert(char_lists(parts@)[i as int] == parts@[i as int]@);
        if !has_list_flags(parts[i].as_slice()) {
            return false;
        }
        i = i + 1;
    }
    true
}

/// The names in a path, without those that stand for the directory itself.
pub open spec fn path_names(path: Seq<char>) -> Seq<Seq<char>> {
    words(Separator::Slash, path).filter(|name: Seq<char>| name != "."@)
}

/// Whether a path starts at the root.
pub open spec fn is_absolute(path: Seq<char>) -> bool {
    begins_with(path, "/"@)
}

/// The names of a path once each `..` has taken the name before it; nothing where there is none.
pub open spec fn resolved(names: Seq<Seq<char>>) -> Option<Seq<Seq<char>>>
    decreases names.len(),
{
    if names.len() == 0 {
        Some(Seq::empty())
    } else {
        match resolved(names.drop_last()) {
            Some(front) => if names.last() == ".."@ {
                if front.len() == 0 {
                    None
                } else {
                    Some(front.drop_last())
                }
            } else {
                Some(front.push(names.last()))
            },
            None => None,
        }
    }
}

/// A path without `.` and `..`: whether it starts at the root, and its names.
pub struct BoundPath {
    pub absolute: bool,
    pub names: Seq<Seq<char>>,
}

impl BoundPath {
    /// The path as text.
    pub open spec fn text(self) -> Seq<char> {
        if self.absolute {
            "/"@ + join(self.names, "/"@)
        } else {
            join(self.names, "/"@)
        }
    }
}

/// A path, taken from a workspace where it does not start at the root.
pub open spec fn bound_path(path: Seq<char>, workspace: Seq<char>) -> Option<BoundPath> {
    let names = if is_absolute(path) {
        path_names(path)
    } else {
        path_names(workspace) + path_names(path)
    };
    match resolved(names) {
        Some(names) => Some(
            BoundPath { absolute: is_absolute(path) || is_absolute(workspace), names },
        ),
        None => None,
    }
}

/// A part of a path.
#[derive(Debug)]
pub enum PathPart {
    /// What comes before the root, such as a drive.
    Prefix(String),
    /// The root.
    Root,
    /// The directory itself.
    Current,
    /// The directory above.
    Parent,
    /// A name.
    Name(String),
}

/// A part of a path, as text.
pub enum PartModel {
    Prefix(Seq<char>),
    Root,
    Current,
    Parent,
    Name(Seq<char>),
}

impl View for PathPart {
    type V = PartModel;

    open spec fn view(&self) -> PartModel {
        match self {
            PathPart::Prefix(text) => PartModel::Prefix(text@),
            PathPart::Root => PartModel::Root,
            PathPart::Current => PartModel::Current,
            PathPart::Parent => PartModel::Parent,
            PathPart::Name(text) => PartModel::Name(text@),
        }
    }
}

/// The parts of a list, as text.
pub open spec fn parts_view(parts: Seq<PathPart>) -> Seq<PartModel> {
    parts.map_values(|part: PathPart| part@)
}

/// The path that a request writes to, split by the rules of the platform.
#[derive(Debug)]
pub struct TargetPath {
    /// Whether the path is absolute as the request gives it.
    pub absolute: bool,
    /// Its parts as the request gives it.
    pub own: Vec<PathPart>,
    /// The parts of the path once it is taken from the workspace, where it is not absolute. Each of
    /// them is read as a path of its own, so that a name that starts a path anew, as a drive does,
    /// stands as a prefix.
    pub joined: Vec<PathPart>,
}

/// The path that a request writes to, as text.
pub struct TargetModel {
    pub absolute: bool,
    pub own: Seq<PartModel>,
    pub joined: Seq<PartModel>,
}

impl View for TargetPath {
    type V = TargetModel;

    open spec fn view(&self) -> TargetModel {
        TargetModel {
            absolute: self.absolute,
            own: parts_view(self.own@),
            joined: parts_view(self.joined@),
        }
    }
}

/// By which rules the path is read that a request writes to.
#[derive(Debug)]
pub enum PathRules {
    /// Names are separated by slashes, and a path that begins with one is absolute.
    Posix,
    /// The rules of a platform, by which the path has been split.
    Native(TargetPath),
}

/// The rules by which a path is read, as text.
pub enum RulesModel {
    Posix,
    Native(TargetModel),
}

impl View for PathRules {
    type V = RulesModel;

    open spec fn view(&self) -> RulesModel {
        match self {
            PathRules::Posix => RulesModel::Posix,
            PathRules::Native(target) => RulesModel::Native(target@),
        }
    }
}

/// The prefix of a path, as a path.
pub open spec fn prefix_of(path: Seq<PartModel>) -> Seq<PartModel> {
    if path.len() > 0 && path[0] is Prefix {
        seq![path[0]]
    } else {
        Seq::empty()
    }
}

/// A path with one more part. A prefix starts it anew, and the root starts it anew behind its
/// prefix; going up takes a name away, and fails where there is none.
pub open spec fn extended(path: Seq<PartModel>, part: PartModel) -> Option<Seq<PartModel>> {
    match part {
        PartModel::Prefix(_) => Some(seq![part]),
        PartModel::Root => Some(prefix_of(path).push(part)),
        PartModel::Current => Some(path),
        PartModel::Parent => if path.len() > 0 && path.last() is Name {
            Some(path.drop_last())
        } else {
            None
        },
        PartModel::Name(_) => Some(path.push(part)),
    }
}

/// The parts of a path without those that stand for the directory itself or the one above; nothing
/// where the path goes up too far.
pub open spec fn normalized_parts(parts: Seq<PartModel>) -> Option<Seq<PartModel>>
    decreases parts.len(),
{
    if parts.len() == 0 {
        Some(Seq::empty())
    } else {
        match normalized_parts(parts.drop_last()) {
            Some(front) => extended(front, parts.last()),
            None => None,
        }
    }
}

/// A part under which secrets or a repository's inner state lie.
pub open spec fn is_sensitive_part(part: PartModel) -> bool {
    match part {
        PartModel::Prefix(text) => is_sensitive_name(text),
        PartModel::Name(text) => is_sensitive_name(text),
        _ => false,
    }
}

/// Whether a path goes through a sensitive part.
pub open spec fn has_sensitive_part(parts: Seq<PartModel>) -> bool {
    exists|i: int| 0 <= i < parts.len() && is_sensitive_part(#[trigger] parts[i])
}

/// A name under which secrets or a repository's inner state lie.
pub open spec fn is_sensitive_name(name: Seq<char>) -> bool {
    let name = lower_all(name);
    ||| name == ".git"@
    ||| name == ".ssh"@
    ||| name == ".gnupg"@
    ||| name == ".aws"@
    ||| name == ".env"@
    ||| begins_with(name, ".env."@)
    ||| begins_with(name, "id_rsa"@)
    ||| begins_with(name, "id_ed25519"@)
}

/// Whether a path goes through a sensitive name.
pub open spec fn is_sensitive(names: Seq<Seq<char>>) -> bool {
    exists|i: int| 0 <= i < names.len() && is_sensitive_name(#[trigger] names[i])
}

/// The class of writing to a path, or creating it: blocked where it leaves the workspace or touches
/// a sensitive name, else `routine`. `within` says whether the path, links followed, lies in the
/// workspace.
pub open spec fn write_class(
    path: Seq<char>,
    workspace: Seq<char>,
    rules: RulesModel,
    within: bool,
    routine: OperationClass,
) -> OperationClass {
    if leads_astray(path, workspace, rules) || !within {
        OperationClass::HardBlocked
    } else {
        routine
    }
}

/// Whether a path goes up too far or touches a sensitive name.
pub open spec fn leads_astray(path: Seq<char>, workspace: Seq<char>, rules: RulesModel) -> bool {
    match rules {
        RulesModel::Posix => match bound_path(path, workspace) {
            Some(bound) => is_sensitive(bound.names),
            None => true,
        },
        RulesModel::Native(target) => match normalized_parts(target.joined) {
            Some(parts) => has_sensitive_part(parts),
            None => true,
        },
    }
}

/// The path of a request to write a file.
pub open spec fn edit_target(raw: Option<Json>) -> Option<Seq<char>> {
    match raw {
        Some(raw) => if raw.field_text("tool"@) == Some("write_file"@) {
            match raw.field("arguments"@) {
                Some(arguments) => arguments.field_text("path"@),
                None => None,
            }
        } else {
            None
        },
        None => None,
    }
}

/// The class of an edit.
pub open spec fn edit_class(
    raw: Option<Json>,
    workspace: Seq<char>,
    rules: RulesModel,
    within: bool,
) -> OperationClass {
    match edit_target(raw) {
        Some(path) => write_class(path, workspace, rules, within, OperationClass::RoutineEdit),
        None => OperationClass::Unknown,
    }
}

/// The directory that a `mkdir` command creates, where it has the one form that is bounded:
/// `mkdir -- path`, with a relative path that never goes up.
pub open spec fn mkdir_target(command: Seq<char>) -> Option<Seq<char>> {
    let parts = words(Separator::White, command);
    if !needs_shell(command) && parts.len() == 3 && parts[1] == "--"@ {
        Some(parts[2])
    } else {
        None
    }
}

/// Whether a path consists of plain names only, the first of which is not the directory itself.
pub open spec fn is_plain_relative(path: Seq<char>) -> bool {
    let parts = words(Separator::Slash, path);
    &&& !is_absolute(path)
    &&& parts.len() > 0 ==> parts[0] != "."@
    &&& forall|i: int| 0 <= i < parts.len() ==> #[trigger] parts[i] != ".."@
}

/// Whether a path is relative and has plain names only.
pub open spec fn has_names_only(path: Seq<char>, rules: RulesModel) -> bool {
    match rules {
        RulesModel::Posix => is_plain_relative(path),
        RulesModel::Native(target) => !target.absolute && forall|i: int|
            0 <= i < target.own.len() ==> #[trigger] target.own[i] is Name,
    }
}

/// The class of a command that creates a directory; nothing for another command.
pub open spec fn mkdir_class(
    command: Seq<char>,
    workspace: Seq<char>,
    rules: RulesModel,
    within: bool,
) -> Option<OperationClass> {
    let parts = words(Separator::White, command);
    if parts.len() == 0 || parts[0] != "mkdir"@ {
        None
    } else {
        match mkdir_target(command) {
            Some(path) => if !has_names_only(path, rules) {
                Some(OperationClass::HardBlocked)
            } else {
                Some(write_class(path, workspace, rules, within, OperationClass::RoutineTerminal))
            },
            None => Some(OperationClass::Unknown),
        }
    }
}

/// The classification of a command.
pub open spec fn command_class(
    command: Seq<char>,
    workspace: Seq<char>,
    rules: RulesModel,
    within: bool,
) -> TrustedClassification {
    let normalized = normalized_command(command);
    if normalized.len() == 0 {
        TrustedClassification::unplaced()
    } else {
        match escalated_class(normalized) {
            Some(class) => TrustedClassification::of(class),
            None => match mkdir_class(command, workspace, rules, within) {
                Some(class) => TrustedClassification::of(class),
                None => if is_routine(command) {
                    TrustedClassification::of(OperationClass::RoutineTerminal)
                } else {
                    TrustedClassification::unplaced()
                },
            },
        }
    }
}

/// The command of a request to execute one, white space around it aside.
pub open spec fn requested_command(raw: Option<Json>) -> Option<Seq<char>> {
    match raw {
        Some(raw) => match raw.field_text("command"@) {
            Some(command) => Some(trim(command)),
            None => None,
        },
        None => None,
    }
}

/// The classification of a request to execute a command.
pub open spec fn execute_class(
    raw: Option<Json>,
    workspace: Seq<char>,
    rules: RulesModel,
    within: bool,
) -> TrustedClassification {
    match requested_command(raw) {
        Some(command) => command_class(command, workspace, rules, within),
        None => TrustedClassification::unplaced(),
    }
}

/// The classification of a request. `within` says whether the path that it would write to lies in
/// the workspace once links are followed.
pub open spec fn classification(
    request: PermissionRequestModel,
    workspace: Seq<char>,
    rules: RulesModel,
    within: bool,
) -> TrustedClassification {
    match request.kind {
        Some(ToolKind::Edit) => TrustedClassification::of(
            edit_class(request.raw_input, workspace, rules, within),
        ),
        Some(ToolKind::Execute) => execute_class(request.raw_input, workspace, rules, within),
        _ => TrustedClassification::of(OperationClass::Unknown),
    }
}

/// The path that a request writes to, as it gives it.
pub open spec fn write_target(request: PermissionRequestModel) -> Option<Seq<char>> {
    match request.kind {
        Some(ToolKind::Edit) => edit_target(request.raw_input),
        Some(ToolKind::Execute) => match requested_command(request.raw_input) {
            Some(command) => {
                let parts = words(Separator::White, command);
                if parts.len() > 0 && parts[0] == "mkdir"@ {
                    mkdir_target(command)
                } else {
                    None
                }
            },
            None => None,
        },
        _ => None,
    }
}

/// The path whose place decides the classification of a request under POSIX rules, if one does.
pub open spec fn probed_path(request: PermissionRequestModel, workspace: Seq<char>) -> Option<
    BoundPath,
> {
    match write_target(request) {
        Some(path) => bound_path(path, workspace),
        None => None,
    }
}

/// A request that writes to no path is classified without looking at one: neither the workspace nor
/// the rules of paths nor what a look would show matters.
pub proof fn classification_depends_on_the_written_path_only(
    request: PermissionRequestModel,
    workspace: Seq<char>,
    other_workspace: Seq<char>,
    rules: RulesModel,
    other_rules: RulesModel,
    within: bool,
    other_within: bool,
)
    requires
        write_target(request) is None,
    ensures
        classification(request, workspace, rules, within) == classification(
            request,
            other_workspace,
            other_rules,
            other_within,
        ),
{
}

/// Where a path goes up too far to be looked at, the classification does not depend on what a look
/// would show.
pub proof fn classification_depends_on_the_probed_path_only(
    request: PermissionRequestModel,
    workspace: Seq<char>,
    within: bool,
)
    requires
        probed_path(request, workspace) is None,
    ensures
        classification(request, workspace, RulesModel::Posix, within) == classification(
            request,
            workspace,
            RulesModel::Posix,
            !within,
        ),
{
}

/// What lies outside the workspace, or leads to a sensitive name, is never routine to write to,
/// whatever the rules of paths are.
pub proof fn writing_outside_the_workspace_is_never_routine(
    request: PermissionRequestModel,
    workspace: Seq<char>,
    rules: RulesModel,
    within: bool,
)
    requires
        write_target(request) is Some,
        !within || leads_astray(write_target(request)->0, workspace, rules),
    ensures
        request.kind == Some(ToolKind::Edit) ==> classification(
            request,
            workspace,
            rules,
            within,
        ).class == OperationClass::HardBlocked,
        classification(request, workspace, rules, within).class != OperationClass::RoutineEdit,
        classification(request, workspace, rules, within).class != OperationClass::RoutineTerminal,
{
    reveal_strlit("mkdir");
    reveal_strlit("pwd");
    reveal_strlit("ls");
}

/// A tool that neither edits nor executes is never placed in a class, whatever the request claims.
pub proof fn other_tools_stay_unknown(
    request: PermissionRequestModel,
    workspace: Seq<char>,
    rules: RulesModel,
    within: bool,
)
    requires
        request.kind != Some(ToolKind::Edit),
        request.kind != Some(ToolKind::Execute),
    ensures
        classification(request, workspace, rules, within).class == OperationClass::Unknown,
{
}

/// Only the tool, the path and the command of a request count: two requests that agree on them are
/// classified alike, whatever else they claim.
pub proof fn only_bound_fields_count(
    first: PermissionRequestModel,
    second: PermissionRequestModel,
    workspace: Seq<char>,
    rules: RulesModel,
    within: bool,
)
    requires
        first.kind == second.kind,
        edit_target(first.raw_input) == edit_target(second.raw_input),
        requested_command(first.raw_input) == requested_command(second.raw_input),
    ensures
        classification(first, workspace, rules, within) == classification(
            second,
            workspace,
            rules,
            within,
        ),
{
}

/// What a name of a POSIX path is a part of.
pub open spec fn posix_part(name: Seq<char>) -> PartModel {
    if name == ".."@ {
        PartModel::Parent
    } else {
        PartModel::Name(name)
    }
}

/// The parts of a POSIX path with some names.
pub open spec fn posix_parts(absolute: bool, names: Seq<Seq<char>>) -> Seq<PartModel> {
    (if absolute {
        seq![PartModel::Root]
    } else {
        Seq::empty()
    }) + names.map_values(|name: Seq<char>| posix_part(name))
}

/// The split of a POSIX path. The directory itself is a part only at the beginning of a relative
/// path.
pub open spec fn posix_target(path: Seq<char>, workspace: Seq<char>) -> TargetModel {
    let begins_here = !is_absolute(path) && words(Separator::Slash, path).len() > 0 && words(
        Separator::Slash,
        path,
    )[0] == "."@;
    TargetModel {
        absolute: is_absolute(path),
        own: (if begins_here {
            seq![PartModel::Current]
        } else {
            Seq::empty()
        }) + posix_parts(is_absolute(path), path_names(path)),
        joined: posix_parts(
            is_absolute(path) || is_absolute(workspace),
            if is_absolute(path) {
                path_names(path)
            } else {
                path_names(workspace) + path_names(path)
            },
        ),
    }
}

proof fn lemma_posix_normalized(absolute: bool, names: Seq<Seq<char>>)
    ensures
        match resolved(names) {
            Some(kept) => {
                &&& normalized_parts(posix_parts(absolute, names)) == Some(
                    posix_parts(absolute, kept),
                )
                &&& forall|i: int| 0 <= i < kept.len() ==> #[trigger] kept[i] != ".."@
            },
            None => normalized_parts(posix_parts(absolute, names)) is None,
        },
    decreases names.len(),
{
    reveal_with_fuel(normalized_parts, 2);
    let parts = posix_parts(absolute, names);
    if names.len() == 0 {
        assert(names =~= Seq::<Seq<char>>::empty());
        if absolute {
            assert(parts.drop_last() =~= Seq::<PartModel>::empty());
            assert(parts =~= seq![PartModel::Root]);
            assert(prefix_of(Seq::<PartModel>::empty()).push(PartModel::Root) =~= parts);
        } else {
            assert(parts =~= Seq::<PartModel>::empty());
        }
    } else {
        lemma_posix_normalized(absolute, names.drop_last());
        assert(parts.drop_last() =~= posix_parts(absolute, names.drop_last()));
        assert(parts.last() == posix_part(names.last()));
        if resolved(names.drop_last()) is Some {
            let front = resolved(names.drop_last())->0;
            let own = posix_parts(absolute, front);
            if names.last() == ".."@ {
                if front.len() > 0 {
                    assert(own.last() == posix_part(front.last()));
                    assert(front[front.len() - 1] != ".."@);
                    assert(own.drop_last() =~= posix_parts(absolute, front.drop_last()));
                } else {
                    assert(own.len() > 0 ==> own.last() == PartModel::Root);
                }
            } else {
                assert(own.push(parts.last()) =~= posix_parts(absolute, front.push(names.last())));
            }
        }
    }
}

proof fn lemma_dots_aside(names: Seq<Seq<char>>)
    ensures
        ({
            let kept = names.filter(|name: Seq<char>| name != "."@);
            &&& forall|i: int| 0 <= i < kept.len() ==> names.contains(#[trigger] kept[i])
            &&& forall|i: int|
                0 <= i < names.len() && #[trigger] names[i] != "."@ ==> kept.contains(names[i])
        }),
    decreases names.len(),
{
    reveal(Seq::filter);
    let keep = |name: Seq<char>| name != "."@;
    let kept = names.filter(keep);
    if names.len() > 0 {
        let front = names.drop_last();
        let before = front.filter(keep);
        lemma_dots_aside(front);
        assert forall|i: int| 0 <= i < kept.len() implies names.contains(#[trigger] kept[i]) by {
            if i < before.len() {
                assert(kept[i] == before[i]);
                let j = choose|j: int| 0 <= j < front.len() && front[j] == before[i];
                assert(names[j] == kept[i]);
            } else {
                assert(names[names.len() - 1] == kept[i]);
            }
        }
        assert forall|i: int| 0 <= i < names.len() && #[trigger] names[i] != "."@ implies
            kept.contains(names[i]) by {
            if i < front.len() {
                assert(front[i] == names[i]);
                let j = choose|j: int| 0 <= j < before.len() && before[j] == names[i];
                assert(kept[j] == names[i]);
            } else {
                assert(kept[kept.len() - 1] == names[i]);
            }
        }
    }
}

/// The POSIX rules are those of a platform that splits paths as POSIX does: a request is classified
/// alike under both.
pub proof fn posix_rules_agree_with_a_posix_split(
    request: PermissionRequestModel,
    workspace: Seq<char>,
    within: bool,
)
    requires
        write_target(request) is Some,
    ensures
        classification(request, workspace, RulesModel::Posix, within) == classification(
            request,
            workspace,
            RulesModel::Native(posix_target(write_target(request)->0, workspace)),
            within,
        ),
{
    let path = write_target(request)->0;
    let target = posix_target(path, workspace);
    let native = RulesModel::Native(target);
    let absolute = is_absolute(path) || is_absolute(workspace);
    let names = if is_absolute(path) {
        path_names(path)
    } else {
        path_names(workspace) + path_names(path)
    };
    lemma_posix_normalized(absolute, names);
    assert(leads_astray(path, workspace, RulesModel::Posix) == leads_astray(
        path,
        workspace,
        native,
    )) by {
        if resolved(names) is Some {
            let kept = resolved(names)->0;
            let parts = posix_parts(absolute, kept);
            let shift: int = if absolute {
                1
            } else {
                0
            };
            assert forall|i: int| 0 <= i < kept.len() implies parts[i + shift] == PartModel::Name(
                #[trigger] kept[i],
            ) by {}
            if is_sensitive(kept) {
                let i = choose|i: int| 0 <= i < kept.len() && is_sensitive_name(#[trigger] kept[i]);
                assert(is_sensitive_part(parts[i + shift]));
            }
            if has_sensitive_part(parts) {
                let i = choose|i: int|
                    0 <= i < parts.len() && is_sensitive_part(#[trigger] parts[i]);
                assert(i >= shift);
                assert(parts[i] == PartModel::Name(kept[i - shift]));
            }
        }
    }
    assert(has_names_only(path, RulesModel::Posix) == has_names_only(path, native)) by {
        let all = words(Separator::Slash, path);
        let kept = path_names(path);
        lemma_dots_aside(all);
        reveal_strlit(".");
        reveal_strlit("..");
        if !is_absolute(path) {
            let here: int = if all.len() > 0 && all[0] == "."@ {
                1
            } else {
                0
            };
            assert(here == 1 ==> target.own[0] == PartModel::Current);
            assert forall|i: int| 0 <= i < kept.len() implies target.own[i + here] == posix_part(
                #[trigger] kept[i],
            ) by {}
            if has_names_only(path, native) {
                assert forall|i: int| 0 <= i < all.len() implies #[trigger] all[i] != ".."@ by {
                    if all[i] == ".."@ {
                        assert(all[i].len() == 2);
                        assert(kept.contains(all[i]));
                        let j = choose|j: int| 0 <= j < kept.len() && kept[j] == all[i];
                        assert(target.own[j + here] is Parent);
                    }
                }
            }
            if has_names_only(path, RulesModel::Posix) {
                assert forall|i: int| 0 <= i < target.own.len() implies
                    #[trigger] target.own[i] is Name by {
                    assert(all.contains(kept[i]));
                    let j = choose|j: int| 0 <= j < all.len() && all[j] == kept[i];
                    assert(target.own[i] == posix_part(kept[i]));
                }
            }
        }
    }
}

/// Whether two commands differ at most in the case of ASCII letters and in the white space around
/// their words.
pub open spec fn same_words(first: Seq<char>, second: Seq<char>) -> bool {
    &&& words(Separator::White, first).len() == words(Separator::White, second).len()
    &&& forall|i: int|
        0 <= i < words(Separator::White, first).len() ==> lower_all(
            #[trigger] words(Separator::White, first)[i],
        ) == lower_all(words(Separator::White, second)[i])
}

proof fn lemma_lower_join(first: Seq<Seq<char>>, second: Seq<Seq<char>>, separator: Seq<char>)
    requires
        first.len() == second.len(),
        forall|i: int|
            0 <= i < first.len() ==> lower_all(#[trigger] first[i]) == lower_all(second[i]),
    ensures
        lower_all(join(first, separator)) == lower_all(join(second, separator)),
    decreases first.len(),
{
    if first.len() == 1 {
        assert(lower_all(first[0]) == lower_all(second[0]));
    } else if first.len() > 1 {
        let a = join(first.drop_last(), separator);
        let b = join(second.drop_last(), separator);
        lemma_lower_join(first.drop_last(), second.drop_last(), separator);
        assert(lower_all(first[first.len() - 1]) == lower_all(second[first.len() - 1]));
        assert(lower_all(a + separator + first.last()) =~= lower_all(a) + lower_all(separator)
            + lower_all(first.last()));
        assert(lower_all(b + separator + second.last()) =~= lower_all(b) + lower_all(separator)
            + lower_all(second.last()));
    }
}

/// Capitals and white space never move a command below its gate: a command that is gated, or blocked
/// for what it says, keeps its classification however its words are spaced and capitalised.
pub proof fn spacing_and_case_keep_the_gate(
    first: Json,
    second: Json,
    workspace: Seq<char>,
    first_rules: RulesModel,
    second_rules: RulesModel,
    first_within: bool,
    second_within: bool,
)
    requires
        first.field_text("command"@) is Some,
        second.field_text("command"@) is Some,
        same_words(first.field_text("command"@)->0, second.field_text("command"@)->0),
        ({
            let class = execute_class(Some(first), workspace, first_rules, first_within).class;
            ||| class == OperationClass::Hg4
            ||| class == OperationClass::Hg35
            ||| class == OperationClass::Sensitive
            ||| class == OperationClass::HardBlocked && words(
                Separator::White,
                first.field_text("command"@)->0,
            )[0] != "mkdir"@
        }),
    ensures
        execute_class(Some(second), workspace, second_rules, second_within) == execute_class(
            Some(first),
            workspace,
            first_rules,
            first_within,
        ),
{
    let a = first.field_text("command"@)->0;
    let b = second.field_text("command"@)->0;
    lemma_trimmed_words(a);
    lemma_trimmed_words(b);
    lemma_lower_join(words(Separator::White, a), words(Separator::White, b), " "@);
    assert(normalized_command(trim(a)) == normalized_command(trim(b)));
}

fn parts_of_path(path: &[char]) -> (r: Vec<Vec<char>>)
    ensures
        char_lists(r@) == path_names(path@),
{
    let all = split_words(Separator::Slash, path);
    let ghost held = char_lists(all@);
    let ghost keep = |name: Seq<char>| name != "."@;
    let mut out: Vec<Vec<char>> = Vec::new();
    let mut i: usize = 0;
    proof {
        reveal(Seq::filter);
        assert(held.subrange(0, 0) =~= Seq::<Seq<char>>::empty());
        assert(char_lists(out@) =~= held.subrange(0, 0).filter(keep));
    }
    while i < all.len()
        invariant
            i <= all@.len(),
            held == char_lists(all@),
            keep == (|name: Seq<char>| name != "."@),
            char_lists(out@) == held.subrange(0, i as int).filter(keep),
        decreases all@.len() - i,
    {
        let ghost upto = held.subrange(0, i + 1);
        let ghost before = out@;
        proof {
            assert(upto.drop_last() =~= held.subrange(0, i as int));
            assert(upto.last() == all@[i as int]@);
            reveal(Seq::filter);
        }
        if !chars_are(all[i].as_slice(), ".") {
            out.push(copy_range(all[i].as_slice(), 0, all[i].len()));
            proof {
                assert(all@[i as int]@.subrange(0, all@[i as int]@.len() as int)
                    =~= all@[i as int]@);
                assert(char_lists(out@) =~= char_lists(before).push(all@[i as int]@));
            }
        }
        i = i + 1;
    }
    proof {
        assert(held.subrange(0, all@.len() as int) =~= held);
    }
    out
}

fn resolve_names(names: Vec<Vec<char>>) -> (r: Option<Vec<Vec<char>>>)
    ensures
        match r {
            Some(out) => resolved(char_lists(names@)) == Some(char_lists(out@)),
            None => resolved(char_lists(names@)) is None,
        },
{
    let ghost held = char_lists(names@);
    let mut out: Vec<Vec<char>> = Vec::new();
    let mut i: usize = 0;
    proof {
        assert(held.subrange(0, 0) =~= Seq::<Seq<char>>::empty());
        assert(char_lists(out@) =~= Seq::<Seq<char>>::empty());
    }
    while i < names.len()
        invariant
            i <= names@.len(),
            held == char_lists(names@),
            resolved(held.subrange(0, i as int)) == Some(char_lists(out@)),
        decreases names@.len() - i,
    {
        let ghost upto = held.subrange(0, i + 1);
        let ghost before = out@;
        proof {
            assert(upto.drop_last() =~= held.subrange(0, i as int));
            assert(upto.last() == names@[i as int]@);
        }
        if chars_are(names[i].as_slice(), "..") {
            if out.pop().is_none() {
                proof {
                    lemma_unresolved_prefix(held, i + 1);
                }
                return None;
            }
            proof {
                assert(char_lists(out@) =~= char_lists(before).drop_last());
            }
        } else {
            out.push(copy_range(names[i].as_slice(), 0, names[i].len()));
            proof {
                assert(names@[i as int]@.subrange(0, names@[i as int]@.len() as int)
                    =~= names@[i as int]@);
                assert(char_lists(out@) =~= char_lists(before).push(names@[i as int]@));
            }
        }
        i = i + 1;
    }
    proof {
        assert(held.subrange(0, names@.len() as int) =~= held);
    }
    Some(out)
}

proof fn lemma_unresolved_prefix(names: Seq<Seq<char>>, upto: int)
    requires
        0 <= upto <= names.len(),
        resolved(names.subrange(0, upto)) is None,
    ensures
        resolved(names) is None,
    decreases names.len() - upto,
{
    if upto < names.len() {
        let longer = names.subrange(0, upto + 1);
        assert(longer.drop_last() =~= names.subrange(0, upto));
        lemma_unresolved_prefix(names, upto + 1);
    } else {
        assert(names.subrange(0, upto) =~= names);
    }
}

/// The bound path of a request, in characters.
struct BoundChars {
    absolute: bool,
    names: Vec<Vec<char>>,
}

impl BoundChars {
    spec fn model(&self) -> BoundPath {
        BoundPath { absolute: self.absolute, names: char_lists(self.names@) }
    }
}

spec fn bound_view(bound: Option<BoundChars>) -> Option<BoundPath> {
    match bound {
        Some(bound) => Some(bound.model()),
        None => None,
    }
}

fn normalize_bound_path(path: &[char], workspace: &[char]) -> (r: Option<BoundChars>)
    ensures
        bound_view(r) == bound_path(path@, workspace@),
{
    let from_root = begins_with_text(path, "/");
    let mut own = parts_of_path(path);
    let names = if from_root {
        own
    } else {
        let mut names = parts_of_path(workspace);
        let ghost base = names@;
        let ghost tail = own@;
        names.append(&mut own);
        proof {
            assert(names@ =~= base + tail);
            assert(char_lists(names@) =~= char_lists(base) + char_lists(tail));
        }
        names
    };
    match resolve_names(names) {
        Some(names) => Some(
            BoundChars { absolute: from_root || begins_with_text(workspace, "/"), names },
        ),
        None => None,
    }
}

fn name_is_sensitive(name: &[char]) -> (r: bool)
    ensures
        r == is_sensitive_name(name@),
{
    let lowered = lower_chars(name);
    let name = lowered.as_slice();
    chars_are(name, ".git") || chars_are(name, ".ssh") || chars_are(name, ".gnupg") || chars_are(
        name,
        ".aws",
    ) || chars_are(name, ".env") || begins_with_text(name, ".env.") || begins_with_text(
        name,
        "id_rsa",
    ) || begins_with_text(name, "id_ed25519")
}

fn is_sensitive_path(names: &Vec<Vec<char>>) -> (r: bool)
    ensures
        r == is_sensitive(char_lists(names@)),
{
    let mut i: usize = 0;
    while i < names.len()
        invariant
            i <= names@.len(),
            forall|j: int| 0 <= j < i ==> !is_sensitive_name(#[trigger] char_lists(names@)[j]),
        decreases names@.len() - i,
    {
        assert(char_lists(names@)[i as int] == names@[i as int]@);
        if name_is_sensitive(names[i].as_slice()) {
            return true;
        }
        i = i + 1;
    }
    false
}

impl PathPart {
    fn same_part(&self, other: &PathPart) -> (r: bool)
        ensures
            r == (self@ == other@),
    {
        match (self, other) {
            (PathPart::Prefix(a), PathPart::Prefix(b)) => same_text(a.as_str(), b.as_str()),
            (PathPart::Root, PathPart::Root) => true,
            (PathPart::Current, PathPart::Current) => true,
            (PathPart::Parent, PathPart::Parent) => true,
            (PathPart::Name(a), PathPart::Name(b)) => same_text(a.as_str(), b.as_str()),
            _ => false,
        }
    }
}

fn prefix_part(path: &Vec<PathPart>) -> (r: Vec<PathPart>)
    ensures
        parts_view(r@) == prefix_of(parts_view(path@)),
{
    let mut out: Vec<PathPart> = Vec::new();
    if path.len() > 0 {
        assert(parts_view(path@)[0] == path@[0]@);
        if let PathPart::Prefix(text) = &path[0] {
            out.push(PathPart::Prefix(text.clone()));
        }
    }
    assert(parts_view(out@) =~= prefix_of(parts_view(path@)));
    out
}

proof fn lemma_unnormalized_prefix(parts: Seq<PartModel>, upto: int)
    requires
        0 <= upto <= parts.len(),
        normalized_parts(parts.subrange(0, upto)) is None,
    ensures
        normalized_parts(parts) is None,
    decreases parts.len() - upto,
{
    if upto < parts.len() {
        let longer = parts.subrange(0, upto + 1);
        assert(longer.drop_last() =~= parts.subrange(0, upto));
        lemma_unnormalized_prefix(parts, upto + 1);
    } else {
        assert(parts.subrange(0, upto) =~= parts);
    }
}

/// The parts of the path, without those that stand for the directory itself or the one above, that
/// has to be looked at before a request is classified under the rules of a platform.
pub fn native_path_to_probe(target: &TargetPath) -> (r: Option<Vec<PathPart>>)
    ensures
        match r {
            Some(parts) => normalized_parts(target@.joined) == Some(parts_view(parts@)),
            None => normalized_parts(target@.joined) is None,
        },
{
    let ghost held = target@.joined;
    let mut out: Vec<PathPart> = Vec::new();
    let mut i: usize = 0;
    proof {
        assert(held.subrange(0, 0) =~= Seq::<PartModel>::empty());
        assert(parts_view(out@) =~= Seq::<PartModel>::empty());
    }
    while i < target.joined.len()
        invariant
            i <= target.joined@.len(),
            held == parts_view(target.joined@),
            normalized_parts(held.subrange(0, i as int)) == Some(parts_view(out@)),
        decreases target.joined@.len() - i,
    {
        let ghost upto = held.subrange(0, i + 1);
        let ghost before = parts_view(out@);
        proof {
            assert(upto.drop_last() =~= held.subrange(0, i as int));
            assert(upto.last() == target.joined@[i as int]@);
            assert(out@.len() > 0 ==> before.last() == out@.last()@);
        }
        match &target.joined[i] {
            PathPart::Prefix(text) => {
                out = Vec::new();
                out.push(PathPart::Prefix(text.clone()));
                assert(parts_view(out@) =~= seq![upto.last()]);
            },
            PathPart::Root => {
                out = prefix_part(&out);
                let ghost prefix = parts_view(out@);
                out.push(PathPart::Root);
                assert(parts_view(out@) =~= prefix.push(upto.last()));
            },
            PathPart::Current => {},
            PathPart::Parent => {
                let above = match out.pop() {
                    Some(PathPart::Name(_)) => true,
                    _ => false,
                };
                if !above {
                    proof {
                        lemma_unnormalized_prefix(held, i + 1);
                    }
                    return None;
                }
                assert(parts_view(out@) =~= before.drop_last());
            },
            PathPart::Name(text) => {
                out.push(PathPart::Name(text.clone()));
                assert(parts_view(out@) =~= before.push(upto.last()));
            },
        }
        i = i + 1;
    }
    assert(held.subrange(0, held.len() as int) =~= held);
    Some(out)
}

fn parts_are_sensitive(parts: &Vec<PathPart>) -> (r: bool)
    ensures
        r == has_sensitive_part(parts_view(parts@)),
{
    let mut i: usize = 0;
    while i < parts.len()
        invariant
            i <= parts@.len(),
            forall|j: int| 0 <= j < i ==> !is_sensitive_part(#[trigger] parts_view(parts@)[j]),
        decreases parts@.len() - i,
    {
        assert(parts_view(parts@)[i as int] == parts@[i as int]@);
        let sensitive = match &parts[i] {
            PathPart::Prefix(text) => name_is_sensitive(chars_of(text.as_str()).as_slice()),
            PathPart::Name(text) => name_is_sensitive(chars_of(text.as_str()).as_slice()),
            _ => false,
        };
        if sensitive {
            return true;
        }
        i = i + 1;
    }
    false
}

fn path_leads_astray(path: &[char], workspace: &str, rules: &PathRules) -> (r: bool)
    ensures
        r == leads_astray(path@, workspace@, rules@),
{
    match rules {
        PathRules::Posix => {
            let workspace = chars_of(workspace);
            match normalize_bound_path(path, workspace.as_slice()) {
                Some(bound) => is_sensitive_path(&bound.names),
                None => true,
            }
        },
        PathRules::Native(target) => match native_path_to_probe(target) {
            Some(parts) => parts_are_sensitive(&parts),
            None => true,
        },
    }
}

fn classify_write(
    path: &[char],
    workspace: &str,
    rules: &PathRules,
    within: bool,
    routine: OperationClass,
) -> (r: OperationClass)
    ensures
        r == write_class(path@, workspace@, rules@, within, routine),
{
    if path_leads_astray(path, workspace, rules) || !within {
        OperationClass::HardBlocked
    } else {
        routine
    }
}

fn edit_path(raw: &Option<JsonValue>) -> (r: Option<&str>)
    ensures
        str_view(r) == edit_target(json_view(*raw)),
{
    match raw {
        Some(raw) => match raw.get_str("tool") {
            Some(tool) => if same_text(tool, "write_file") {
                match raw.get("arguments") {
                    Some(arguments) => arguments.get_str("path"),
                    None => None,
                }
            } else {
                None
            },
            None => None,
        },
        None => None,
    }
}

fn classify_edit(raw: &Option<JsonValue>, workspace: &str, rules: &PathRules, within: bool) -> (r:
    OperationClass)
    ensures
        r == edit_class(json_view(*raw), workspace@, rules@, within),
{
    match edit_path(raw) {
        Some(path) => {
            let path = chars_of(path);
            classify_write(path.as_slice(), workspace, rules, within, OperationClass::RoutineEdit)
        },
        None => OperationClass::Unknown,
    }
}

fn command_chars(raw: &Option<JsonValue>) -> (r: Option<Vec<char>>)
    ensures
        match r {
            Some(command) => requested_command(json_view(*raw)) == Some(command@),
            None => requested_command(json_view(*raw)) is None,
        },
{
    match raw {
        Some(raw) => match raw.get_str("command") {
            Some(command) => {
                let chars = chars_of(command);
                Some(trim_chars(chars.as_slice()))
            },
            None => None,
        },
        None => None,
    }
}

fn mkdir_path(command: &[char], parts: &Vec<Vec<char>>) -> (r: Option<Vec<char>>)
    requires
        char_lists(parts@) == words(Separator::White, command@),
    ensures
        match r {
            Some(path) => mkdir_target(command@) == Some(path@),
            None => mkdir_target(command@) is None,
        },
{
    assert forall|i: int| 0 <= i < parts@.len() implies #[trigger] char_lists(parts@)[i]
        == parts@[i]@ by {}
    if has_shell_syntax(command) || parts.len() != 3 || !chars_are(parts[1].as_slice(), "--") {
        return None;
    }
    assert(parts@[2]@.subrange(0, parts@[2]@.len() as int) =~= parts@[2]@);
    Some(copy_range(parts[2].as_slice(), 0, parts[2].len()))
}

fn is_plain_relative_path(path: &[char]) -> (r: bool)
    ensures
        r == is_plain_relative(path@),
{
    if begins_with_text(path, "/") {
        return false;
    }
    let parts = split_words(Separator::Slash, path);
    assert forall|i: int| 0 <= i < parts@.len() implies #[trigger] char_lists(parts@)[i]
        == parts@[i]@ by {}
    if parts.len() > 0 && chars_are(parts[0].as_slice(), ".") {
        return false;
    }
    let mut i: usize = 0;
    while i < parts.len()
        invariant
            i <= parts@.len(),
            char_lists(parts@) == words(Separator::Slash, path@),
            forall|j: int|
                0 <= j < i ==> #[trigger] words(Separator::Slash, path@)[j] != ".."@,
        decreases parts@.len() - i,
    {
        assert(char_lists(parts@)[i as int] == parts@[i as int]@);
        if chars_are(parts[i].as_slice(), "..") {
            return false;
        }
        i = i + 1;
    }
    true
}

fn path_has_names_only(path: &[char], rules: &PathRules) -> (r: bool)
    ensures
        r == has_names_only(path@, rules@),
{
    match rules {
        PathRules::Posix => is_plain_relative_path(path),
        PathRules::Native(target) => {
            if target.absolute {
                return false;
            }
            let mut i: usize = 0;
            while i < target.own.len()
                invariant
                    rules@ == RulesModel::Native(target@),
                    !target.absolute,
                    i <= target.own@.len(),
                    forall|j: int| 0 <= j < i ==> #[trigger] parts_view(target.own@)[j] is Name,
                decreases target.own@.len() - i,
            {
                assert(parts_view(target.own@)[i as int] == target.own@[i as int]@);
                let is_name = match &target.own[i] {
                    PathPart::Name(_) => true,
                    _ => false,
                };
                if !is_name {
                    return false;
                }
                i = i + 1;
            }
            true
        },
    }
}

fn classify_bounded_workspace_mutation(
    command: &[char],
    workspace: &str,
    rules: &PathRules,
    within: bool,
) -> (r: Option<OperationClass>)
    ensures
        r == mkdir_class(command@, workspace@, rules@, within),
{
    let parts = split_words(Separator::White, command);
    if parts.len() == 0 {
        return None;
    }
    assert(char_lists(parts@)[0] == parts@[0]@);
    if !chars_are(parts[0].as_slice(), "mkdir") {
        return None;
    }
    match mkdir_path(command, &parts) {
        Some(path) => if !path_has_names_only(path.as_slice(), rules) {
            Some(OperationClass::HardBlocked)
        } else {
            Some(
                classify_write(
                    path.as_slice(),
                    workspace,
                    rules,
                    within,
                    OperationClass::RoutineTerminal,
                ),
            )
        },
        None => Some(OperationClass::Unknown),
    }
}

/// Classifies a request to execute a command. `rules` and `within` are as in [`classify_request`].
pub fn classify_command(
    raw: &Option<JsonValue>,
    workspace: &str,
    rules: &PathRules,
    within: bool,
) -> (r: TrustedClassification)
    ensures
        r == execute_class(json_view(*raw), workspace@, rules@, within),
{
    let command = match command_chars(raw) {
        Some(command) => command,
        None => {
            return TrustedClassification::unclassified_execute();
        },
    };
    let command = command.as_slice();
    let parts = split_words(Separator::White, command);
    let collapsed = join_chars(&parts, " ");
    let normalized = lower_chars(collapsed.as_slice());
    if normalized.len() == 0 {
        return TrustedClassification::unclassified_execute();
    }
    if let Some(class) = escalate(normalized.as_slice()) {
        return TrustedClassification::new(class);
    }
    if let Some(class) = classify_bounded_workspace_mutation(command, workspace, rules, within) {
        return TrustedClassification::new(class);
    }
    if is_routine_command(command) {
        TrustedClassification::new(OperationClass::RoutineTerminal)
    } else {
        TrustedClassification::unclassified_execute()
    }
}

/// Classifies a request. `rules` says how the path of [`write_path`] is read. `within` says whether
/// the path of [`path_to_probe`], or of [`native_path_to_probe`], lies in the workspace once links
/// are followed; where there is no such path, it does not matter.
pub fn classify_request(
    request: &RequestPermissionRequest,
    workspace: &str,
    rules: &PathRules,
    within: bool,
) -> (r: TrustedClassification)
    ensures
        r == classification(request@, workspace@, rules@, within),
{
    match request.tool_call.kind {
        Some(ToolKind::Edit) => TrustedClassification::new(
            classify_edit(&request.tool_call.raw_input, workspace, rules, within),
        ),
        Some(ToolKind::Execute) => classify_command(
            &request.tool_call.raw_input,
            workspace,
            rules,
            within,
        ),
        _ => TrustedClassification::new(OperationClass::Unknown),
    }
}

/// The path that a request writes to, as it gives it.
pub fn write_path(request: &RequestPermissionRequest) -> (r: Option<String>)
    ensures
        text_view(r) == write_target(request@),
{
    match request.tool_call.kind {
        Some(ToolKind::Edit) => match edit_path(&request.tool_call.raw_input) {
            Some(path) => Some(path.to_owned()),
            None => None,
        },
        Some(ToolKind::Execute) => match command_chars(&request.tool_call.raw_input) {
            Some(command) => {
                let parts = split_words(Separator::White, command.as_slice());
                if parts.len() == 0 {
                    return None;
                }
                assert(char_lists(parts@)[0] == parts@[0]@);
                if !chars_are(parts[0].as_slice(), "mkdir") {
                    return None;
                }
                match mkdir_path(command.as_slice(), &parts) {
                    Some(path) => Some(string_of(path.as_slice())),
                    None => None,
                }
            },
            None => None,
        },
        _ => None,
    }
}

/// The path, without `.` and `..`, that has to be looked at before a request is classified under
/// POSIX rules.
pub fn path_to_probe(request: &RequestPermissionRequest, workspace: &str) -> (r: Option<String>)
    ensures
        text_view(r) == match probed_path(request@, workspace@) {
            Some(bound) => Some(bound.text()),
            None => None,
        },
{
    let bound = match write_path(request) {
        Some(path) => {
            let path = chars_of(path.as_str());
            let workspace = chars_of(workspace);
            normalize_bound_path(path.as_slice(), workspace.as_slice())
        },
        None => None,
    };
    match bound {
        Some(bound) => {
            let joined = join_chars(&bound.names, "/");
            if bound.absolute {
                let mut out = chars_of("/");
                push_all(&mut out, joined.as_slice());
                Some(string_of(out.as_slice()))
            } else {
                Some(string_of(joined.as_slice()))
            }
        },
        None => None,
    }
}

/// The names of a path of which the last `missing` names of `path` do not exist and what comes before
/// them leads to `ancestor`.
pub open spec fn resolved_names(path: Seq<char>, missing: nat, ancestor: Seq<char>) -> Seq<
    Seq<char>,
> {
    let names = words(Separator::Slash, path);
    words(Separator::Slash, ancestor) + names.subrange(names.len() - missing, names.len() as int)
}

/// Whether a path lies in a folder: its names start with those of the folder.
pub open spec fn lies_within(
    path: Seq<char>,
    missing: nat,
    ancestor: Seq<char>,
    root: Seq<char>,
) -> bool {
    let folder = words(Separator::Slash, root);
    let full = resolved_names(path, missing, ancestor);
    &&& missing <= words(Separator::Slash, path).len()
    &&& is_absolute(ancestor) == is_absolute(root)
    &&& folder.len() <= full.len()
    &&& full.subrange(0, folder.len() as int) == folder
}

/// Whether a path lies in a folder once links are followed. The last `missing` names of the path do
/// not exist; what comes before them leads to `ancestor`. `ancestor` and `root` are free of links.
pub fn resolves_within(path: &str, missing: usize, ancestor: &str, root: &str) -> (r: bool)
    ensures
        r == lies_within(path@, missing as nat, ancestor@, root@),
{
    let names = split_words(Separator::Slash, chars_of(path).as_slice());
    if missing > names.len() {
        return false;
    }
    let ancestor_chars = chars_of(ancestor);
    let root_chars = chars_of(root);
    if begins_with_text(ancestor_chars.as_slice(), "/") != begins_with_text(
        root_chars.as_slice(),
        "/",
    ) {
        return false;
    }
    let before = split_words(Separator::Slash, ancestor_chars.as_slice());
    let folder = split_words(Separator::Slash, root_chars.as_slice());
    let ghost full = resolved_names(path@, missing as nat, ancestor@);
    if before.len() < folder.len() && folder.len() - before.len() > missing {
        return false;
    }
    let mut i: usize = 0;
    while i < folder.len()
        invariant
            char_lists(names@) == words(Separator::Slash, path@),
            char_lists(before@) == words(Separator::Slash, ancestor@),
            char_lists(folder@) == words(Separator::Slash, root@),
            missing <= names@.len(),
            full == resolved_names(path@, missing as nat, ancestor@),
            full.len() == before@.len() + missing,
            folder@.len() <= full.len(),
            i <= folder@.len(),
            forall|j: int| 0 <= j < i ==> full[j] == #[trigger] char_lists(folder@)[j],
        decreases folder@.len() - i,
    {
        assert(char_lists(folder@)[i as int] == folder@[i as int]@);
        let same = if i < before.len() {
            assert(char_lists(before@)[i as int] == before@[i as int]@);
            same_chars(before[i].as_slice(), folder[i].as_slice())
        } else {
            let at: usize = names.len() - missing + (i - before.len());
            assert(char_lists(names@)[at as int] == names@[at as int]@);
            same_chars(names[at].as_slice(), folder[i].as_slice())
        };
        if !same {
            assert(full.subrange(0, folder@.len() as int)[i as int] != char_lists(
                folder@,
            )[i as int]);
            return false;
        }
        i = i + 1;
    }
    assert(full.subrange(0, folder@.len() as int) =~= char_lists(folder@));
    true
}

fn same_chars(a: &[char], b: &[char]) -> (r: bool)
    ensures
        r == (a@ == b@),
{
    if a.len() != b.len() {
        return false;
    }
    let mut i: usize = 0;
    while i < a.len()
        invariant
            a@.len() == b@.len(),
            i <= a@.len(),
            forall|j: int| 0 <= j < i ==> a@[j] == b@[j],
        decreases a@.len() - i,
    {
        if a[i] != b[i] {
            return false;
        }
        i = i + 1;
    }
    assert(a@ =~= b@);
    true
}

/// A path that lies in a folder lies in every folder around it.
pub proof fn outer_folder_holds_it_too(
    path: Seq<char>,
    missing: nat,
    ancestor: Seq<char>,
    root: Seq<char>,
    outer: Seq<char>,
)
    requires
        lies_within(path, missing, ancestor, root),
        lies_within(root, 0, root, outer),
    ensures
        lies_within(path, missing, ancestor, outer),
{
    let full = resolved_names(path, missing, ancestor);
    let folder = words(Separator::Slash, root);
    let around = words(Separator::Slash, outer);
    assert(resolved_names(root, 0, root) =~= folder);
    assert(full.subrange(0, around.len() as int) =~= full.subrange(
        0,
        folder.len() as int,
    ).subrange(0, around.len() as int));
}

/// The parts of a path of which the last `missing` parts of `path` do not exist and what comes before
/// them leads to `ancestor`.
pub open spec fn resolved_parts(
    path: Seq<PartModel>,
    missing: nat,
    ancestor: Seq<PartModel>,
) -> Seq<PartModel> {
    ancestor + path.subrange(path.len() - missing, path.len() as int)
}

/// Whether a path, split by the rules of a platform, lies in a folder: its parts start with those of
/// the folder.
pub open spec fn parts_lie_within(
    path: Seq<PartModel>,
    missing: nat,
    ancestor: Seq<PartModel>,
    root: Seq<PartModel>,
) -> bool {
    let full = resolved_parts(path, missing, ancestor);
    &&& missing <= path.len()
    &&& root.len() <= full.len()
    &&& full.subrange(0, root.len() as int) == root
}

/// Whether a path, split by the rules of a platform, lies in a folder once links are followed. The
/// last `missing` parts of the path do not exist; what comes before them leads to `ancestor`.
/// `ancestor` and `root` are free of links.
pub fn native_resolves_within(
    path: &Vec<PathPart>,
    missing: usize,
    ancestor: &Vec<PathPart>,
    root: &Vec<PathPart>,
) -> (r: bool)
    ensures
        r == parts_lie_within(
            parts_view(path@),
            missing as nat,
            parts_view(ancestor@),
            parts_view(root@),
        ),
{
    if missing > path.len() {
        return false;
    }
    let ghost full = resolved_parts(parts_view(path@), missing as nat, parts_view(ancestor@));
    if ancestor.len() < root.len() && root.len() - ancestor.len() > missing {
        return false;
    }
    let mut i: usize = 0;
    while i < root.len()
        invariant
            missing <= path@.len(),
            full == resolved_parts(parts_view(path@), missing as nat, parts_view(ancestor@)),
            full.len() == ancestor@.len() + missing,
            root@.len() <= full.len(),
            i <= root@.len(),
            forall|j: int| 0 <= j < i ==> full[j] == #[trigger] parts_view(root@)[j],
        decreases root@.len() - i,
    {
        assert(parts_view(root@)[i as int] == root@[i as int]@);
        let same = if i < ancestor.len() {
            assert(full[i as int] == ancestor@[i as int]@);
            ancestor[i].same_part(&root[i])
        } else {
            let at: usize = path.len() - missing + (i - ancestor.len());
            assert(full[i as int] == path@[at as int]@);
            path[at].same_part(&root[i])
        };
        if !same {
            assert(full.subrange(0, root@.len() as int)[i as int] != parts_view(root@)[i as int]);
            return false;
        }
        i = i + 1;
    }
    assert(full.subrange(0, root@.len() as int) =~= parts_view(root@));
    true
}

/// The phrases of commands that are never allowed.
pub open spec fn destructive_phrase(phrase: Seq<char>) -> bool {
    ||| phrase == "rm -rf /"@
    ||| phrase == "rm -fr /"@
    ||| phrase == "mkfs"@
    ||| phrase == "diskutil erase"@
    ||| phrase == ":(){ :|:& };:"@
    ||| phrase == "chmod -r 777 /"@
}

/// The phrases of commands that only the founder may allow.
pub open spec fn founder_phrase(phrase: Seq<char>) -> bool {
    ||| phrase == "notarytool submit"@
    ||| phrase == "eve-update-proxy"@
    ||| phrase == "r2 object put"@
    ||| phrase == "production rollback"@
    ||| phrase == "founder-gate"@
}

/// The phrases of commands that publish something.
pub open spec fn publishing_phrase(phrase: Seq<char>) -> bool {
    ||| phrase == "git push"@
    ||| phrase == "gh pr merge"@
    ||| phrase == "npm publish"@
    ||| phrase == "cargo publish"@
    ||| phrase == "wrangler deploy"@
    ||| phrase == "vercel deploy"@
    ||| phrase == "release upload"@
}

/// The phrases of commands that reach out or touch secrets.
pub open spec fn sensitive_phrase(phrase: Seq<char>) -> bool {
    ||| phrase == "curl "@
    ||| phrase == "wget "@
    ||| phrase == "ssh "@
    ||| phrase == "scp "@
    ||| phrase == "sudo "@
    ||| phrase == "security find-"@
    ||| phrase == ".env"@
    ||| phrase == "keychain"@
    ||| phrase == "docker run"@
    ||| phrase == "npm install"@
    ||| phrase == "pnpm add"@
    ||| phrase == "pip install"@
}

/// How strict a class is that the words of a command can lead to.
pub open spec fn gate_height(class: OperationClass) -> int {
    match class {
        OperationClass::HardBlocked => 4,
        OperationClass::Hg4 => 3,
        OperationClass::Hg35 => 2,
        OperationClass::Sensitive => 1,
        _ => 0,
    }
}

/// Whether a command holds one of the phrases of a list.
pub open spec fn holds_phrase(command: Seq<char>, list: spec_fn(Seq<char>) -> bool) -> bool {
    exists|phrase: Seq<char>| list(phrase) && #[trigger] contains(command, phrase)
}

/// A phrase gates a command whatever else it says: a destructive phrase blocks it, a founder's phrase
/// puts it before the founder unless it is blocked, a publishing one before the proxy unless it is
/// gated higher, and a sensitive one before its owner unless it is gated higher.
pub proof fn phrase_gates_the_command(
    command: Seq<char>,
    phrase: Seq<char>,
    workspace: Seq<char>,
    rules: RulesModel,
    within: bool,
)
    requires
        contains(normalized_command(command), phrase),
    ensures
        ({
            let class = command_class(command, workspace, rules, within).class;
            &&& destructive_phrase(phrase) ==> class == OperationClass::HardBlocked
            &&& founder_phrase(phrase) ==> class == OperationClass::Hg4 || class
                == OperationClass::HardBlocked
            &&& publishing_phrase(phrase) ==> class == OperationClass::Hg35 || class
                == OperationClass::Hg4 || class == OperationClass::HardBlocked
            &&& sensitive_phrase(phrase) ==> class == OperationClass::Sensitive || class
                == OperationClass::Hg35 || class == OperationClass::Hg4 || class
                == OperationClass::HardBlocked
        }),
{
    let text = normalized_command(command);
    lemma_no_phrase_in_nothing();
    let at = choose|at: int| occurs_at(text, phrase, at);
    assert(phrase.len() <= text.len());
}

proof fn lemma_no_phrase_in_nothing()
    ensures
        forall|phrase: Seq<char>|
            #[trigger] destructive_phrase(phrase) || founder_phrase(phrase) || publishing_phrase(
                phrase,
            ) || sensitive_phrase(phrase) ==> phrase.len() > 0,
{
    reveal_strlit("rm -rf /");
    reveal_strlit("rm -fr /");
    reveal_strlit("mkfs");
    reveal_strlit("diskutil erase");
    reveal_strlit(":(){ :|:& };:");
    reveal_strlit("chmod -r 777 /");
    reveal_strlit("notarytool submit");
    reveal_strlit("eve-update-proxy");
    reveal_strlit("r2 object put");
    reveal_strlit("production rollback");
    reveal_strlit("founder-gate");
    reveal_strlit("git push");
    reveal_strlit("gh pr merge");
    reveal_strlit("npm publish");
    reveal_strlit("cargo publish");
    reveal_strlit("wrangler deploy");
    reveal_strlit("vercel deploy");
    reveal_strlit("release upload");
    reveal_strlit("curl ");
    reveal_strlit("wget ");
    reveal_strlit("ssh ");
    reveal_strlit("scp ");
    reveal_strlit("sudo ");
    reveal_strlit("security find-");
    reveal_strlit(".env");
    reveal_strlit("keychain");
    reveal_strlit("docker run");
    reveal_strlit("npm install");
    reveal_strlit("pnpm add");
    reveal_strlit("pip install");
}

/// No gate without a phrase: where the words of a command, which makes no directory, lead to a gate,
/// it holds a phrase of that gate and none of a higher one.
pub proof fn gate_has_its_phrase(
    command: Seq<char>,
    workspace: Seq<char>,
    rules: RulesModel,
    within: bool,
)
    requires
        words(Separator::White, command).len() == 0 || words(Separator::White, command)[0]
            != "mkdir"@,
    ensures
        ({
            let text = normalized_command(command);
            let class = command_class(command, workspace, rules, within).class;
            let destructive = holds_phrase(text, |phrase: Seq<char>| destructive_phrase(phrase));
            let founder = holds_phrase(text, |phrase: Seq<char>| founder_phrase(phrase));
            let publishing = holds_phrase(text, |phrase: Seq<char>| publishing_phrase(phrase));
            let sensitive = holds_phrase(text, |phrase: Seq<char>| sensitive_phrase(phrase));
            &&& class == OperationClass::HardBlocked <==> destructive
            &&& class == OperationClass::Hg4 <==> founder && !destructive
            &&& class == OperationClass::Hg35 <==> publishing && !founder && !destructive
            &&& class == OperationClass::Sensitive <==> sensitive && !publishing && !founder
                && !destructive
        }),
{
    let text = normalized_command(command);
    lemma_no_phrase_in_nothing();
    assert forall|phrase: Seq<char>| #[trigger] contains(text, phrase) && phrase.len() > 0 implies
        text.len() > 0 by {
        let at = choose|at: int| occurs_at(text, phrase, at);
    }
    assert(destructive_phrase("rm -rf /"@));
    assert(destructive_phrase("rm -fr /"@));
    assert(destructive_phrase("mkfs"@));
    assert(destructive_phrase("diskutil erase"@));
    assert(destructive_phrase(":(){ :|:& };:"@));
    assert(destructive_phrase("chmod -r 777 /"@));
    assert(founder_phrase("notarytool submit"@));
    assert(founder_phrase("eve-update-proxy"@));
    assert(founder_phrase("r2 object put"@));
    assert(founder_phrase("production rollback"@));
    assert(founder_phrase("founder-gate"@));
    assert(publishing_phrase("git push"@));
    assert(publishing_phrase("gh pr merge"@));
    assert(publishing_phrase("npm publish"@));
    assert(publishing_phrase("cargo publish"@));
    assert(publishing_phrase("wrangler deploy"@));
    assert(publishing_phrase("vercel deploy"@));
    assert(publishing_phrase("release upload"@));
    assert(sensitive_phrase("curl "@));
    assert(sensitive_phrase("wget "@));
    assert(sensitive_phrase("ssh "@));
    assert(sensitive_phrase("scp "@));
    assert(sensitive_phrase("sudo "@));
    assert(sensitive_phrase("security find-"@));
    assert(sensitive_phrase(".env"@));
    assert(sensitive_phrase("keychain"@));
    assert(sensitive_phrase("docker run"@));
    assert(sensitive_phrase("npm install"@));
    assert(sensitive_phrase("pnpm add"@));
    assert(sensitive_phrase("pip install"@));
}

proof fn lemma_contains_transitive(outer: Seq<char>, inner: Seq<char>, phrase: Seq<char>)
    requires
        contains(outer, inner),
        contains(inner, phrase),
    ensures
        contains(outer, phrase),
{
    let a = choose|a: int| occurs_at(outer, inner, a);
    let b = choose|b: int| occurs_at(inner, phrase, b);
    assert(outer.subrange(a + b, a + b + phrase.len()) =~= inner.subrange(b, b + phrase.len()))
        by {
        assert(inner =~= outer.subrange(a, a + inner.len()));
    }
    assert(occurs_at(outer, phrase, a + b));
}

/// Adding words to a command never lowers its gate.
pub proof fn longer_command_is_gated_as_high(
    short: Seq<char>,
    long: Seq<char>,
    workspace: Seq<char>,
    rules: RulesModel,
    within: bool,
)
    requires
        contains(normalized_command(long), normalized_command(short)),
        words(Separator::White, short).len() == 0 || words(Separator::White, short)[0] != "mkdir"@,
    ensures
        gate_height(command_class(short, workspace, rules, within).class) <= gate_height(
            command_class(long, workspace, rules, within).class,
        ),
{
    let a = normalized_command(short);
    let b = normalized_command(long);
    gate_has_its_phrase(short, workspace, rules, within);
    if holds_phrase(a, |phrase: Seq<char>| destructive_phrase(phrase)) {
        let phrase = choose|phrase: Seq<char>|
            destructive_phrase(phrase) && #[trigger] contains(a, phrase);
        lemma_contains_transitive(b, a, phrase);
        phrase_gates_the_command(long, phrase, workspace, rules, within);
    } else if holds_phrase(a, |phrase: Seq<char>| founder_phrase(phrase)) {
        let phrase = choose|phrase: Seq<char>|
            founder_phrase(phrase) && #[trigger] contains(a, phrase);
        lemma_contains_transitive(b, a, phrase);
        phrase_gates_the_command(long, phrase, workspace, rules, within);
    } else if holds_phrase(a, |phrase: Seq<char>| publishing_phrase(phrase)) {
        let phrase = choose|phrase: Seq<char>|
            publishing_phrase(phrase) && #[trigger] contains(a, phrase);
        lemma_contains_transitive(b, a, phrase);
        phrase_gates_the_command(long, phrase, workspace, rules, within);
    } else if holds_phrase(a, |phrase: Seq<char>| sensitive_phrase(phrase)) {
        let phrase = choose|phrase: Seq<char>|
            sensitive_phrase(phrase) && #[trigger] contains(a, phrase);
        lemma_contains_transitive(b, a, phrase);
        phrase_gates_the_command(long, phrase, workspace, rules, within);
    }
}

/// The characters that a shell does not take literally, in a row.
pub const SHELL_CHARACTERS: &'static str = "&|;`$><\n\r'\"\\*?[]{}()~#!";

proof fn lemma_shell_characters(c: char)
    ensures
        is_shell_char(c) <==> SHELL_CHARACTERS@.contains(c),
{
    reveal_strlit("&|;`$><\n\r'\"\\*?[]{}()~#!");
    let all = SHELL_CHARACTERS@;
    assert(all[0] == '&');
    assert(all[1] == '|');
    assert(all[2] == ';');
    assert(all[3] == '`');
    assert(all[4] == '$');
    assert(all[5] == '>');
    assert(all[6] == '<');
    assert(all[7] == '\n');
    assert(all[8] == '\r');
    assert(all[9] == '\'');
    assert(all[10] == '"');
    assert(all[11] == '\\');
    assert(all[12] == '*');
    assert(all[13] == '?');
    assert(all[14] == '[');
    assert(all[15] == ']');
    assert(all[16] == '{');
    assert(all[17] == '}');
    assert(all[18] == '(');
    assert(all[19] == ')');
    assert(all[20] == '~');
    assert(all[21] == '#');
    assert(all[22] == '!');
}

/// What a routine terminal command is, where it makes no directory: it shows where the agent is, or
/// lists that directory with flags that only shape the output. It holds no character of the shell,
/// and no phrase gates it. Every such command is routine.
pub proof fn routine_command_only_looks(
    command: Seq<char>,
    workspace: Seq<char>,
    rules: RulesModel,
    within: bool,
)
    requires
        words(Separator::White, command).len() > 0,
        words(Separator::White, command)[0] != "mkdir"@,
    ensures
        ({
            let parts = words(Separator::White, command);
            let class = command_class(command, workspace, rules, within).class;
            let looks = {
                ||| base_name(parts[0]) == "pwd"@ && parts.len() == 1
                ||| base_name(parts[0]) == "ls"@ && forall|i: int, j: int|
                    #![trigger parts[i][j]]
                    1 <= i < parts.len() && 0 <= j < parts[i].len() ==> if j == 0 {
                        parts[i][j] == '-'
                    } else {
                        "aAlhnd1"@.contains(parts[i][j])
                    }
            };
            &&& class == OperationClass::RoutineTerminal ==> looks
            &&& class == OperationClass::RoutineTerminal ==> forall|i: int|
                0 <= i < command.len() ==> !SHELL_CHARACTERS@.contains(#[trigger] command[i])
            &&& class == OperationClass::Unknown ==> command_class(
                command,
                workspace,
                rules,
                within,
            ).required_authority is Some
            &&& looks && (forall|i: int|
                0 <= i < command.len() ==> !SHELL_CHARACTERS@.contains(#[trigger] command[i]))
                && escalated_class(normalized_command(command)) is None && normalized_command(
                command,
            ).len() > 0 && (forall|i: int|
                1 <= i < parts.len() ==> (#[trigger] parts[i]).len() > 0) ==> class
                == OperationClass::RoutineTerminal
        }),
{
    let parts = words(Separator::White, command);
    let class = command_class(command, workspace, rules, within).class;
    reveal_strlit("-");
    reveal_strlit("--");
    reveal_strlit("aAlhnd1");
    reveal_strlit("pwd");
    reveal_strlit("ls");
    let flags = "aAlhnd1"@;
    assert(flags[0] == 'a' && flags[1] == 'A' && flags[2] == 'l' && flags[3] == 'h' && flags[4]
        == 'n' && flags[5] == 'd' && flags[6] == '1');
    assert forall|c: char| is_list_flag(c) <==> #[trigger] flags.contains(c) by {}
    assert forall|i: int| 0 <= i < command.len() implies is_shell_char(#[trigger] command[i])
        == SHELL_CHARACTERS@.contains(command[i]) by {
        lemma_shell_characters(command[i]);
    }
    assert forall|i: int| 1 <= i < parts.len() && is_list_option(#[trigger] parts[i]) implies forall|
        j: int,
    |
        0 <= j < parts[i].len() ==> if j == 0 {
            #[trigger] parts[i][j] == '-'
        } else {
            flags.contains(parts[i][j])
        } by {
        assert(parts[i].subrange(0, 1)[0] == parts[i][0]);
    }
    assert forall|i: int| 1 <= i < parts.len() && (#[trigger] parts[i]).len() > 0 && (forall|j: int|
        0 <= j < parts[i].len() ==> if j == 0 {
            #[trigger] parts[i][j] == '-'
        } else {
            flags.contains(parts[i][j])
        }) implies is_list_option(parts[i]) by {
        assert(parts[i][0] == '-');
        assert(parts[i].subrange(0, 1) =~= "-"@);
        if begins_with(parts[i], "--"@) {
            assert(parts[i].subrange(0, 2)[1] == parts[i][1]);
            assert(flags.contains(parts[i][1]));
        }
        assert forall|j: int| 1 <= j < parts[i].len() implies is_list_flag(
            #[trigger] parts[i][j],
        ) by {
            assert(flags.contains(parts[i][j]));
        }
    }
}

/// The base name of a word is what follows its last slash.
pub proof fn base_name_follows_the_last_slash(folder: Seq<char>, name: Seq<char>)
    requires
        forall|i: int| 0 <= i < name.len() ==> #[trigger] name[i] != '/',
    ensures
        base_name(name) == name,
        base_name(folder.push('/') + name) == name,
    decreases name.len(),
{
    if name.len() > 0 {
        let front = name.drop_last();
        assert forall|i: int| 0 <= i < front.len() implies #[trigger] front[i] != '/' by {
            assert(front[i] == name[i]);
        }
        base_name_follows_the_last_slash(folder, front);
        assert(name[name.len() - 1] != '/');
        assert((folder.push('/') + name).drop_last() =~= folder.push('/') + front);
        assert(front.push(name.last()) =~= name);
    } else {
        assert(folder.push('/') + name =~= folder.push('/'));
        assert(name =~= Seq::<char>::empty());
    }
}

/// A command that makes a directory is routine exactly where no phrase gates it and it is
/// `mkdir -- path`, free of the characters of the shell, with a path of plain names that stays in
/// the workspace and away from sensitive names. In that form any other path is blocked, and in any
/// other form nothing is known of it.
pub proof fn made_directory_stays_in_the_workspace(
    command: Seq<char>,
    workspace: Seq<char>,
    rules: RulesModel,
    within: bool,
)
    requires
        words(Separator::White, command).len() > 0,
        words(Separator::White, command)[0] == "mkdir"@,
        escalated_class(normalized_command(command)) is None,
        normalized_command(command).len() > 0,
    ensures
        ({
            let parts = words(Separator::White, command);
            let class = command_class(command, workspace, rules, within).class;
            let bounded = parts.len() == 3 && parts[1] == "--"@ && forall|i: int|
                0 <= i < command.len() ==> !SHELL_CHARACTERS@.contains(#[trigger] command[i]);
            &&& !bounded ==> class == OperationClass::Unknown
            &&& bounded ==> class == if within && has_names_only(parts[2], rules)
                && !leads_astray(parts[2], workspace, rules) {
                OperationClass::RoutineTerminal
            } else {
                OperationClass::HardBlocked
            }
        }),
{
    assert forall|i: int| 0 <= i < command.len() implies is_shell_char(#[trigger] command[i])
        == SHELL_CHARACTERS@.contains(command[i]) by {
        lemma_shell_characters(command[i]);
    }
}

/// Writing a file is routine exactly where the path stays in the workspace and away from sensitive
/// names, and blocked otherwise; an edit that is not the writing of a named file is not placed.
pub proof fn written_file_stays_in_the_workspace(
    request: PermissionRequestModel,
    workspace: Seq<char>,
    rules: RulesModel,
    within: bool,
)
    requires
        request.kind == Some(ToolKind::Edit),
    ensures
        ({
            let class = classification(request, workspace, rules, within);
            let names_a_file = request.raw_input is Some && request.raw_input->0.field_text(
                "tool"@,
            ) == Some("write_file"@) && request.raw_input->0.field("arguments"@) is Some
                && request.raw_input->0.field("arguments"@)->0.field_text("path"@) is Some;
            &&& class.required_authority is None
            &&& !names_a_file ==> class.class == OperationClass::Unknown
            &&& names_a_file ==> class.class == if within && !leads_astray(
                request.raw_input->0.field("arguments"@)->0.field_text("path"@)->0,
                workspace,
                rules,
            ) {
                OperationClass::RoutineEdit
            } else {
                OperationClass::HardBlocked
            }
        }),
{
}

/// The names that secrets and a repository's inner state lie under, whatever their case.
pub proof fn sensitive_names(name: Seq<char>)
    ensures
        ({
            let small = lower_all(name);
            is_sensitive_name(name) <==> {
                ||| small == ".git"@
                ||| small == ".ssh"@
                ||| small == ".gnupg"@
                ||| small == ".aws"@
                ||| small == ".env"@
                ||| small.len() >= 5 && small.subrange(0, 5) == ".env."@
                ||| small.len() >= 6 && small.subrange(0, 6) == "id_rsa"@
                ||| small.len() >= 10 && small.subrange(0, 10) == "id_ed25519"@
            }
        }),
{
    reveal_strlit(".env.");
    reveal_strlit("id_rsa");
    reveal_strlit("id_ed25519");
}

/// Resolving a path: names stay as they are, going up takes the last of them away, and fails where
/// there is none. What is resolved holds no step up.
pub proof fn going_up_takes_the_last_name(names: Seq<Seq<char>>, name: Seq<char>)
    requires
        name != ".."@,
    ensures
        resolved(Seq::<Seq<char>>::empty()) == Some(Seq::<Seq<char>>::empty()),
        resolved(seq![".."@]) is None,
        resolved(names) is Some ==> resolved(names.push(name)) == Some(
            resolved(names)->0.push(name),
        ),
        resolved(names) is None ==> resolved(names.push(name)) is None && resolved(
            names.push(".."@),
        ) is None,
        resolved(names.push(name).push(".."@)) == resolved(names),
{
    reveal_with_fuel(resolved, 3);
    assert(names.push(name).drop_last() =~= names);
    assert(names.push(".."@).drop_last() =~= names);
    assert(names.push(name).push(".."@).drop_last() =~= names.push(name));
    assert(seq![".."@].drop_last() =~= Seq::<Seq<char>>::empty());
    if resolved(names) is Some {
        assert(resolved(names)->0.push(name).drop_last() =~= resolved(names)->0);
    }
}

/// Under POSIX rules a path without steps up leads astray exactly where one of its names, or one of
/// the workspace that it is taken from, is sensitive.
pub proof fn plain_path_leads_astray_by_its_names(path: Seq<char>, workspace: Seq<char>)
    requires
        forall|i: int| 0 <= i < path_names(path).len() ==> #[trigger] path_names(path)[i] != ".."@,
        forall|i: int|
            0 <= i < path_names(workspace).len() ==> #[trigger] path_names(workspace)[i] != ".."@,
    ensures
        leads_astray(path, workspace, RulesModel::Posix) <==> {
            ||| exists|i: int|
                0 <= i < path_names(path).len() && is_sensitive_name(
                    #[trigger] path_names(path)[i],
                )
            ||| !(path.len() > 0 && path[0] == '/') && exists|i: int|
                0 <= i < path_names(workspace).len() && is_sensitive_name(
                    #[trigger] path_names(workspace)[i],
                )
        },
{
    reveal_strlit("/");
    let own = path_names(path);
    let base = path_names(workspace);
    assert(is_absolute(path) == (path.len() > 0 && path[0] == '/')) by {
        if path.len() > 0 {
            assert(path.subrange(0, 1)[0] == path[0]);
            assert(path[0] == '/' ==> path.subrange(0, 1) =~= "/"@);
        }
    }
    let names = if is_absolute(path) {
        own
    } else {
        base + own
    };
    assert forall|i: int| 0 <= i < names.len() implies #[trigger] names[i] != ".."@ by {
        if !is_absolute(path) {
            if i < base.len() {
                assert(names[i] == base[i]);
            } else {
                assert(names[i] == own[i - base.len()]);
            }
        }
    }
    lemma_resolved_plain(names);
    if !is_absolute(path) {
        if is_sensitive(names) {
            let i = choose|i: int| 0 <= i < names.len() && is_sensitive_name(#[trigger] names[i]);
            if i < base.len() {
                assert(names[i] == base[i]);
            } else {
                assert(names[i] == own[i - base.len()]);
            }
        }
        assert forall|i: int| 0 <= i < base.len() && is_sensitive_name(
            #[trigger] base[i],
        ) implies is_sensitive(names) by {
            assert(names[i] == base[i]);
        }
        assert forall|i: int| 0 <= i < own.len() && is_sensitive_name(
            #[trigger] own[i],
        ) implies is_sensitive(names) by {
            assert(names[i + base.len()] == own[i]);
        }
    }
}

proof fn lemma_resolved_plain(names: Seq<Seq<char>>)
    requires
        forall|i: int| 0 <= i < names.len() ==> #[trigger] names[i] != ".."@,
    ensures
        resolved(names) == Some(names),
    decreases names.len(),
{
    if names.len() > 0 {
        let front = names.drop_last();
        assert forall|i: int| 0 <= i < front.len() implies #[trigger] front[i] != ".."@ by {
            assert(front[i] == names[i]);
        }
        lemma_resolved_plain(front);
        assert(names[names.len() - 1] != ".."@);
        assert(front.push(names.last()) =~= names);
    } else {
        assert(names =~= Seq::<Seq<char>>::empty());
    }
}

/// The parts of a path that another system splits are put together in their order: a name goes one
/// down, a parent one up and never above the names, the current directory nowhere, a root back to
/// the beginning, and a prefix starts anew.
pub proof fn parts_are_put_together_in_order(
    parts: Seq<PartModel>,
    name: Seq<char>,
    prefix: Seq<char>,
)
    ensures
        normalized_parts(Seq::empty()) == Some(Seq::<PartModel>::empty()),
        normalized_parts(parts) is None ==> normalized_parts(parts.push(PartModel::Parent)) is None
            && normalized_parts(parts.push(PartModel::Name(name))) is None,
        normalized_parts(parts) is Some ==> {
            let kept = normalized_parts(parts)->0;
            &&& normalized_parts(parts.push(PartModel::Name(name))) == Some(
                kept.push(PartModel::Name(name)),
            )
            &&& normalized_parts(parts.push(PartModel::Current)) == Some(kept)
            &&& normalized_parts(parts.push(PartModel::Prefix(prefix))) == Some(
                seq![PartModel::Prefix(prefix)],
            )
            &&& normalized_parts(parts.push(PartModel::Parent)) is None <==> kept.len() == 0 || !(
            kept.last() is Name)
            &&& kept.len() > 0 && kept[0] is Prefix ==> normalized_parts(
                parts.push(PartModel::Root),
            ) == Some(seq![kept[0], PartModel::Root])
            &&& kept.len() == 0 || !(kept[0] is Prefix) ==> normalized_parts(
                parts.push(PartModel::Root),
            ) == Some(seq![PartModel::Root])
            &&& normalized_parts(parts.push(PartModel::Name(name)).push(PartModel::Parent)) == Some(
                kept,
            )
        },
{
    let named = parts.push(PartModel::Name(name));
    assert(named.drop_last() =~= parts);
    assert(named.push(PartModel::Parent).drop_last() =~= named);
    assert(parts.push(PartModel::Current).drop_last() =~= parts);
    assert(parts.push(PartModel::Prefix(prefix)).drop_last() =~= parts);
    assert(parts.push(PartModel::Parent).drop_last() =~= parts);
    assert(parts.push(PartModel::Root).drop_last() =~= parts);
    if normalized_parts(parts) is Some {
        let kept = normalized_parts(parts)->0;
        assert(kept.push(PartModel::Name(name)).drop_last() =~= kept);
        assert(prefix_of(kept).push(PartModel::Root) =~= if kept.len() > 0 && kept[0] is Prefix {
            seq![kept[0], PartModel::Root]
        } else {
            seq![PartModel::Root]
        });
    }
}

/// A path that another system splits leads astray exactly where it leads above its beginning, or
/// has a sensitive name or prefix left once its parts are put together. A directory to be made has
/// to be named relative, by names alone.
pub proof fn split_path_leads_astray_by_its_parts(
    path: Seq<char>,
    workspace: Seq<char>,
    target: TargetModel,
)
    ensures
        ({
            let joined = normalized_parts(target.joined);
            leads_astray(path, workspace, RulesModel::Native(target)) <==> joined is None || exists|
                i: int,
            |
                0 <= i < joined->0.len() && ((#[trigger] joined->0[i] matches PartModel::Name(name)
                    && is_sensitive_name(name)) || (joined->0[i] matches PartModel::Prefix(prefix)
                    && is_sensitive_name(prefix)))
        }),
        has_names_only(path, RulesModel::Native(target)) <==> !target.absolute && forall|i: int|
            0 <= i < target.own.len() ==> (#[trigger] target.own[i]) is Name,
        has_names_only(path, RulesModel::Posix) <==> !(path.len() > 0 && path[0] == '/') && (words(
            Separator::Slash,
            path,
        ).len() > 0 ==> words(Separator::Slash, path)[0] != "."@) && !words(
            Separator::Slash,
            path,
        ).contains(".."@),
{
    let joined = normalized_parts(target.joined);
    if joined is Some {
        if has_sensitive_part(joined->0) {
            let i = choose|i: int|
                0 <= i < joined->0.len() && is_sensitive_part(#[trigger] joined->0[i]);
            assert((joined->0[i] matches PartModel::Name(name) && is_sensitive_name(name)) || (
            joined->0[i] matches PartModel::Prefix(prefix) && is_sensitive_name(prefix)));
        }
        if exists|i: int|
            0 <= i < joined->0.len() && ((#[trigger] joined->0[i] matches PartModel::Name(name)
                && is_sensitive_name(name)) || (joined->0[i] matches PartModel::Prefix(prefix)
                && is_sensitive_name(prefix))) {
            let i = choose|i: int|
                0 <= i < joined->0.len() && ((#[trigger] joined->0[i] matches PartModel::Name(name)
                    && is_sensitive_name(name)) || (joined->0[i] matches PartModel::Prefix(prefix)
                    && is_sensitive_name(prefix)));
            assert(is_sensitive_part(joined->0[i]));
        }
    }
    reveal_strlit("/");
    if path.len() > 0 {
        assert(path.subrange(0, 1)[0] == path[0]);
        if path[0] == '/' {
            assert(path.subrange(0, 1) =~= "/"@);
        }
    }
    let names = words(Separator::Slash, path);
    if names.contains(".."@) {
        let i = choose|i: int| 0 <= i < names.len() && names[i] == ".."@;
        assert(names[i] == ".."@);
    }
}

/// A path lies within a folder exactly where the names of the folder begin those of the place that
/// the path leads to: its nearest ancestor that is there, and the names that are not there yet.
pub proof fn path_within_a_folder_begins_with_it(
    path: Seq<char>,
    missing: nat,
    ancestor: Seq<char>,
    root: Seq<char>,
    i: int,
)
    requires
        missing <= words(Separator::Slash, path).len(),
    ensures
        ({
            let folder = words(Separator::Slash, root);
            let there = words(Separator::Slash, ancestor);
            let names = words(Separator::Slash, path);
            let place = |i: int|
                if i < there.len() {
                    there[i]
                } else {
                    names[names.len() - missing + i - there.len()]
                };
            let rooted = (ancestor.len() > 0 && ancestor[0] == '/') <==> (root.len() > 0 && root[0]
                == '/');
            &&& lies_within(path, missing, ancestor, root) ==> rooted && folder.len()
                <= there.len() + missing
            &&& lies_within(path, missing, ancestor, root) && 0 <= i < folder.len() ==> folder[i]
                == place(i)
            &&& rooted && folder.len() <= there.len() + missing && (forall|i: int|
                0 <= i < folder.len() ==> #[trigger] folder[i] == place(i)) ==> lies_within(
                path,
                missing,
                ancestor,
                root,
            )
        }),
{
    let folder = words(Separator::Slash, root);
    let there = words(Separator::Slash, ancestor);
    let names = words(Separator::Slash, path);
    let full = resolved_names(path, missing, ancestor);
    lemma_absolute(ancestor);
    lemma_absolute(root);
    if lies_within(path, missing, ancestor, root) && 0 <= i < folder.len() {
        assert(full.subrange(0, folder.len() as int)[i] == full[i]);
    }
    let place = |i: int|
        if i < there.len() {
            there[i]
        } else {
            names[names.len() - missing + i - there.len()]
        };
    if folder.len() <= there.len() + missing && forall|i: int|
        0 <= i < folder.len() ==> #[trigger] folder[i] == place(i) {
        assert(full.subrange(0, folder.len() as int) =~= folder);
    }
}

proof fn lemma_absolute(path: Seq<char>)
    ensures
        is_absolute(path) <==> path.len() > 0 && path[0] == '/',
{
    reveal_strlit("/");
    if path.len() > 0 {
        assert(path.subrange(0, 1)[0] == path[0]);
        if path[0] == '/' {
            assert(path.subrange(0, 1) =~= "/"@);
        }
    }
}

/// A split path lies within a folder exactly where the parts of the folder begin those of the place
/// that it leads to.
pub proof fn split_path_within_a_folder_begins_with_it(
    path: Seq<PartModel>,
    missing: nat,
    ancestor: Seq<PartModel>,
    root: Seq<PartModel>,
    rest: Seq<PartModel>,
)
    requires
        missing <= path.len(),
    ensures
        ancestor + path.subrange(path.len() - missing, path.len() as int) == root + rest
            ==> parts_lie_within(path, missing, ancestor, root),
        parts_lie_within(path, missing, ancestor, root) ==> exists|rest: Seq<PartModel>|
            ancestor + path.subrange(path.len() - missing, path.len() as int) == #[trigger] (root
                + rest),
{
    let full = ancestor + path.subrange(path.len() - missing, path.len() as int);
    if full == root + rest {
        assert(full.subrange(0, root.len() as int) =~= root);
    }
    if parts_lie_within(path, missing, ancestor, root) {
        let tail = full.subrange(root.len() as int, full.len() as int);
        assert(full =~= root + tail);
    }
}

/// The command of a request is what it asks to run, blanks at its ends aside, and is read in small
/// letters with single blanks between its words.
pub proof fn command_is_read_in_small_letters(raw: Json, command: Seq<char>)
    requires
        raw.field_text("command"@) == Some(command),
    ensures
        requested_command(Some(raw)) == Some(trim(command)),
        requested_command(None) is None,
        normalized_command(command) == lower_all(
            join(words(Separator::White, command), seq![' ']),
        ),
{
    reveal_strlit(" ");
    assert(" "@ =~= seq![' ']);
}

} // verus!
