//! Setting up the agents: the hooks in the settings of one and the telemetry in the
//! configuration of the other, Codex.

use vstd::prelude::*;

use crate::events;
use crate::events::HookEvent;
use crate::json;
use crate::json::{put, Json};
use crate::text;
use crate::text::{concat2, concat3, concat4, contains_text, same_text};
use crate::tomldoc;
use crate::tomldoc::TomlNode;

verus! {

/// Whose settings are meant: those of the user or those of a project.
#[derive(Clone, Copy, PartialEq, Eq, Debug, Structural)]
pub enum InstallScope {
    User,
    Project,
}

/// The scope of a name; nothing where it names none.
pub open spec fn scope_of(name: Seq<char>) -> Option<InstallScope> {
    if name == "user"@ {
        Some(InstallScope::User)
    } else if name == "project"@ {
        Some(InstallScope::Project)
    } else {
        None
    }
}

/// The scope of a name; nothing where it names none.
pub fn parse_scope(scope: &str) -> (r: Option<InstallScope>)
    ensures
        r == scope_of(scope@),
{
    if same_text(scope, "user") {
        Some(InstallScope::User)
    } else if same_text(scope, "project") {
        Some(InstallScope::Project)
    } else {
        None
    }
}

/// Where a settings file is: in the home directory or not, and the parts of its path there.
#[derive(Debug)]
pub struct SettingsPath {
    pub in_home: bool,
    pub parts: Vec<String>,
}

/// The settings of a scope are in the home directory.
pub open spec fn is_in_home(scope: InstallScope) -> bool {
    scope == InstallScope::User
}

/// The parts of the path of a settings file.
pub open spec fn settings_parts(dir: Seq<char>) -> Seq<Seq<char>> {
    seq![dir, "settings.json"@]
}

/// The settings file of a scope, in the directory `dir` of the settings: of the home directory
/// for the user, of the working directory for a project.
pub fn settings_path(scope: InstallScope, dir: &str) -> (r: SettingsPath)
    ensures
        r.in_home == is_in_home(scope),
        text::views(r.parts@) == settings_parts(dir@),
{
    let mut parts: Vec<String> = Vec::new();
    parts.push(dir.to_owned());
    parts.push("settings.json".to_owned());
    proof {
        assert(text::views(parts@) =~= seq![dir@, "settings.json"@]);
    }
    SettingsPath { in_home: scope == InstallScope::User, parts }
}

// ---------------------------------------------------------------------------
// Hooks
// ---------------------------------------------------------------------------

/// The command that listens to events.
pub open spec fn listen_command(binary: Seq<char>) -> Seq<char> {
    binary + " listen"@
}

/// The command that asks for approval.
pub open spec fn approve_command(binary: Seq<char>) -> Seq<char> {
    binary + " approve"@
}

/// A hook that runs a command.
pub open spec fn command_hook(command: Seq<char>) -> json::JsonView {
    json::JsonView::Object(
        Map::<Seq<char>, json::JsonView>::empty().insert(
            "type"@,
            json::JsonView::Str("command"@),
        ).insert("command"@, json::JsonView::Str(command)),
    )
}

/// The configuration of an event that runs hooks for whatever it is about.
pub open spec fn matched_config(hooks: Seq<json::JsonView>) -> json::JsonView {
    json::JsonView::Array(
        seq![
            json::JsonView::Object(
                Map::<Seq<char>, json::JsonView>::empty().insert(
                    "matcher"@,
                    json::JsonView::Str(""@),
                ).insert("hooks"@, json::JsonView::Array(hooks)),
            ),
        ],
    )
}

/// The configuration of an event that is about nothing to be matched.
pub open spec fn plain_config(hooks: Seq<json::JsonView>) -> json::JsonView {
    json::JsonView::Array(
        seq![
            json::JsonView::Object(
                Map::<Seq<char>, json::JsonView>::empty().insert(
                    "hooks"@,
                    json::JsonView::Array(hooks),
                ),
            ),
        ],
    )
}

/// The hooks of all events. All listen; a permission request asks for approval too.
pub open spec fn hooks_of(binary: Seq<char>) -> Map<Seq<char>, json::JsonView> {
    let listen = command_hook(listen_command(binary));
    let approve = command_hook(approve_command(binary));
    let matched = matched_config(seq![listen]);
    let plain = plain_config(seq![listen]);
    Map::<Seq<char>, json::JsonView>::empty()
        .insert("SessionStart"@, matched)
        .insert("InstructionsLoaded"@, plain)
        .insert("UserPromptSubmit"@, plain)
        .insert("PreToolUse"@, matched)
        .insert("PermissionRequest"@, matched_config(seq![listen, approve]))
        .insert("PostToolUse"@, matched)
        .insert("PostToolUseFailure"@, matched)
        .insert("Notification"@, matched)
        .insert("SubagentStart"@, matched)
        .insert("SubagentStop"@, matched)
        .insert("Stop"@, plain)
        .insert("TeammateIdle"@, plain)
        .insert("TaskCompleted"@, plain)
        .insert("ConfigChange"@, matched)
        .insert("WorktreeCreate"@, plain)
        .insert("WorktreeRemove"@, plain)
        .insert("PreCompact"@, matched)
        .insert("SessionEnd"@, matched)
}

fn make_hook(command: &str) -> (r: Json)
    ensures
        r@ == command_hook(command@),
{
    let mut members: Vec<(String, Json)> = Vec::new();
    put(&mut members, "type", Json::string("command"));
    put(&mut members, "command", Json::string(command));
    Json::Object(members)
}

fn make_config(matcher: bool, hooks: Vec<Json>) -> (r: Json)
    ensures
        r@ == (if matcher {
            matched_config(json::items_view(hooks@))
        } else {
            plain_config(json::items_view(hooks@))
        }),
{
    let mut members: Vec<(String, Json)> = Vec::new();
    if matcher {
        put(&mut members, "matcher", Json::string(""));
    }
    put(&mut members, "hooks", Json::Array(hooks));
    let mut items: Vec<Json> = Vec::new();
    items.push(Json::Object(members));
    proof {
        assert(json::items_view(items@) =~= seq![json::json_view(items@[0])]);
    }
    Json::Array(items)
}

fn make_listener(matcher: bool, listen: &str) -> (r: Json)
    ensures
        r@ == (if matcher {
            matched_config(seq![command_hook(listen@)])
        } else {
            plain_config(seq![command_hook(listen@)])
        }),
{
    let mut hooks: Vec<Json> = Vec::new();
    hooks.push(make_hook(listen));
    proof {
        assert(json::items_view(hooks@) =~= seq![command_hook(listen@)]);
    }
    make_config(matcher, hooks)
}

fn make_approver(listen: &str, approve: &str) -> (r: Json)
    ensures
        r@ == matched_config(seq![command_hook(listen@), command_hook(approve@)]),
{
    let mut hooks: Vec<Json> = Vec::new();
    hooks.push(make_hook(listen));
    hooks.push(make_hook(approve));
    proof {
        assert(json::items_view(hooks@) =~= seq![command_hook(listen@), command_hook(approve@)]);
    }
    make_config(true, hooks)
}

/// The hooks of all events, for a binary at a path.
pub fn generate_hooks_config(binary_path: &str) -> (r: Vec<(String, Json)>)
    ensures
        json::members_view(r@) == hooks_of(binary_path@),
{
    let listen = concat2(binary_path, " listen");
    let approve = concat2(binary_path, " approve");
    let mut members: Vec<(String, Json)> = Vec::new();
    put(&mut members, "SessionStart", make_listener(true, &listen));
    put(&mut members, "InstructionsLoaded", make_listener(false, &listen));
    put(&mut members, "UserPromptSubmit", make_listener(false, &listen));
    put(&mut members, "PreToolUse", make_listener(true, &listen));
    put(&mut members, "PermissionRequest", make_approver(&listen, &approve));
    put(&mut members, "PostToolUse", make_listener(true, &listen));
    put(&mut members, "PostToolUseFailure", make_listener(true, &listen));
    put(&mut members, "Notification", make_listener(true, &listen));
    put(&mut members, "SubagentStart", make_listener(true, &listen));
    put(&mut members, "SubagentStop", make_listener(true, &listen));
    put(&mut members, "Stop", make_listener(false, &listen));
    put(&mut members, "TeammateIdle", make_listener(false, &listen));
    put(&mut members, "TaskCompleted", make_listener(false, &listen));
    put(&mut members, "ConfigChange", make_listener(true, &listen));
    put(&mut members, "WorktreeCreate", make_listener(false, &listen));
    put(&mut members, "WorktreeRemove", make_listener(false, &listen));
    put(&mut members, "PreCompact", make_listener(true, &listen));
    put(&mut members, "SessionEnd", make_listener(true, &listen));
    members
}

/// Why hooks could not be put into settings.
#[derive(Clone, Copy, PartialEq, Eq, Debug, Structural)]
pub enum InstallError {
    SettingsNotObject,
    HooksNotObject,
}

impl InstallError {
    /// The error in words.
    pub open spec fn words(self) -> Seq<char> {
        match self {
            InstallError::SettingsNotObject => "Settings is not a JSON object"@,
            InstallError::HooksNotObject => "hooks is not a JSON object"@,
        }
    }

    /// The error in words.
    pub fn message(&self) -> (r: &'static str)
        ensures
            r@ == self.words(),
    {
        match self {
            InstallError::SettingsNotObject => "Settings is not a JSON object",
            InstallError::HooksNotObject => "hooks is not a JSON object",
        }
    }
}

/// The settings with hooks added: those that are there already stay as they are.
pub open spec fn merged(
    settings: json::JsonView,
    hooks: Map<Seq<char>, json::JsonView>,
) -> Result<json::JsonView, InstallError> {
    match settings {
        json::JsonView::Object(members) => if members.contains_key("hooks"@) {
            match members["hooks"@] {
                json::JsonView::Object(existing) => Ok(
                    json::JsonView::Object(
                        members.insert(
                            "hooks"@,
                            json::JsonView::Object(hooks.union_prefer_right(existing)),
                        ),
                    ),
                ),
                _ => Err(InstallError::HooksNotObject),
            }
        } else {
            Ok(
                json::JsonView::Object(
                    members.insert("hooks"@, json::JsonView::Object(hooks)),
                ),
            )
        },
        _ => Err(InstallError::SettingsNotObject),
    }
}

proof fn lemma_members_after(first: Seq<(String, Json)>, second: Seq<(String, Json)>)
    ensures
        json::members_view(first + second) == json::members_view(first).union_prefer_right(
            json::members_view(second),
        ),
    decreases second.len(),
{
    if second.len() == 0 {
        assert(first + second =~= first);
        assert(json::members_view(first).union_prefer_right(Map::empty()) =~= json::members_view(
            first,
        ));
    } else {
        lemma_members_after(first, second.drop_last());
        assert((first + second).drop_last() =~= first + second.drop_last());
        assert(json::members_view(first + second) =~= json::members_view(
            first,
        ).union_prefer_right(json::members_view(second)));
    }
}

/// Adds the hooks of a binary to settings.
pub fn merge_hooks(settings: Json, binary_path: &str) -> (r: Result<Json, InstallError>)
    ensures
        match r {
            Ok(doc) => merged(settings@, hooks_of(binary_path@)) == Ok::<_, InstallError>(doc@),
            Err(e) => merged(settings@, hooks_of(binary_path@)) == Err::<json::JsonView, _>(e),
        },
{
    let mut hooks = generate_hooks_config(binary_path);
    let existing = match settings.get("hooks") {
        Some(value) => Some(value.copy()),
        None => None,
    };
    match settings {
        Json::Object(members) => {
            let mut out = members;
            match existing {
                Some(Json::Object(old_hooks)) => {
                    let mut old_members = old_hooks;
                    let ghost first = hooks@;
                    let ghost second = old_members@;
                    hooks.append(&mut old_members);
                    proof {
                        assert(hooks@ =~= first + second);
                        lemma_members_after(first, second);
                    }
                    put(&mut out, "hooks", Json::Object(hooks));
                    Ok(Json::Object(out))
                },
                Some(_) => Err(InstallError::HooksNotObject),
                None => {
                    put(&mut out, "hooks", Json::Object(hooks));
                    Ok(Json::Object(out))
                },
            }
        },
        _ => Err(InstallError::SettingsNotObject),
    }
}

/// What settings say; a file that is missing or no JSON says nothing.
pub open spec fn settings_of(content: Option<Seq<char>>) -> json::JsonView {
    match content {
        Some(c) => match json::parsed_text(c) {
            Some(doc) => doc,
            None => json::JsonView::Object(Map::empty()),
        },
        None => json::JsonView::Object(Map::empty()),
    }
}

/// Reads settings.
pub fn read_settings(content: Option<&str>) -> (r: Json)
    ensures
        r@ == settings_of(text::text_view(content)),
{
    match content {
        Some(c) => match json::parse_text(c) {
            Ok(doc) => doc,
            Err(_) => Json::Object(Vec::new()),
        },
        None => Json::Object(Vec::new()),
    }
}

/// The settings file with the hooks of a binary added.
pub fn install_settings(content: Option<&str>, binary_path: &str) -> (r: Result<
    String,
    InstallError,
>)
    ensures
        match merged(settings_of(text::text_view(content)), hooks_of(binary_path@)) {
            Ok(doc) => r is Ok && r->Ok_0@ == json::pretty_text(doc) && (json::plain(
                doc,
                json::PARSE_DEPTH as nat,
            )
                ==> json::parsed_text(r->Ok_0@) == Some(doc)),
            Err(e) => r == Err::<String, _>(e),
        },
{
    match merge_hooks(read_settings(content), binary_path) {
        Ok(doc) => Ok(doc.render_pretty()),
        Err(e) => Err(e),
    }
}

/// The hooks in settings.
pub open spec fn hooks_in(settings: json::JsonView) -> Option<Map<Seq<char>, json::JsonView>> {
    match json::member(settings, "hooks"@) {
        Some(json::JsonView::Object(hooks)) => Some(hooks),
        _ => None,
    }
}

/// The hooks of an event, as they are written, name the binary's listening command.
pub open spec fn config_names(config: json::JsonView, binary: Seq<char>) -> bool {
    text::occurs_in(json::compact_text(config), listen_command(binary))
}

/// The settings name the binary's listening command in the hooks of some event.
pub open spec fn names_command(settings: json::JsonView, binary: Seq<char>) -> bool {
    match hooks_in(settings) {
        Some(hooks) => exists|event: Seq<char>|
            #[trigger] hooks.contains_key(event) && config_names(hooks[event], binary),
        None => false,
    }
}

/// Some event of the settings runs the binary's listening command.
pub open spec fn runs_command(settings: json::JsonView, binary: Seq<char>) -> bool {
    match hooks_in(settings) {
        Some(hooks) => exists|event: Seq<char>|
            #[trigger] hooks.contains_key(event) && json::holds_string(
                hooks[event],
                listen_command(binary),
            ),
        None => false,
    }
}

proof fn lemma_member_shadow(members: Seq<(String, Json)>, i: int)
    requires
        0 <= i < members.len(),
        forall|j: int| i < j < members.len() ==> (#[trigger] members[j]).0@ != members[i].0@,
    ensures
        json::members_view(members).contains_key(members[i].0@),
        json::members_view(members)[members[i].0@] == json::json_view(members[i].1),
    decreases members.len(),
{
    if i < members.len() - 1 {
        assert(members[members.len() - 1].0@ != members[i].0@);
        assert forall|j: int|
            i < j < members.drop_last().len() implies (#[trigger] members.drop_last()[j]).0@
            != members.drop_last()[i].0@ by {
            assert(members[j].0@ != members[i].0@);
        }
        lemma_member_shadow(members.drop_last(), i);
    }
}

proof fn lemma_member_listed(members: Seq<(String, Json)>, key: Seq<char>)
    requires
        json::members_view(members).contains_key(key),
    ensures
        exists|i: int|
            0 <= i < members.len() && (#[trigger] members[i]).0@ == key && json::json_view(
                members[i].1,
            ) == json::members_view(members)[key] && forall|j: int|
                i < j < members.len() ==> (#[trigger] members[j]).0@ != key,
    decreases members.len(),
{
    if members.last().0@ == key {
        assert(members[members.len() - 1].0@ == key);
    } else {
        lemma_member_listed(members.drop_last(), key);
        let i = choose|i: int|
            0 <= i < members.drop_last().len() && (#[trigger] members.drop_last()[i]).0@ == key
                && json::json_view(members.drop_last()[i].1) == json::members_view(
                members.drop_last(),
            )[key] && forall|j: int|
                i < j < members.drop_last().len() ==> (#[trigger] members.drop_last()[j]).0@
                    != key;
        assert(members[i].0@ == key);
        assert forall|j: int| i < j < members.len() implies (#[trigger] members[j]).0@ != key by {
            if j < members.len() - 1 {
                assert(members.drop_last()[j].0@ != key);
            }
        }
    }
}

fn is_shadowed(members: &Vec<(String, Json)>, i: usize) -> (r: bool)
    requires
        i < members@.len(),
    ensures
        r == exists|j: int| i < j < members@.len() && (#[trigger] members@[j]).0@ == members@[i as int].0@,
{
    let total = members.len();
    let mut j = i + 1;
    while j < total
        invariant
            i < j <= total,
            total == members@.len(),
            forall|k: int| i < k < j ==> (#[trigger] members@[k]).0@ != members@[i as int].0@,
        decreases total - j,
    {
        if same_text(&members[j].0, &members[i].0) {
            return true;
        }
        j += 1;
    }
    false
}

/// Whether settings name the binary's listening command. They do where some event runs it and it
/// needs no escape.
pub fn names_listener(settings: &Json, binary_path: &str) -> (r: bool)
    ensures
        r == names_command(settings@, binary_path@),
        runs_command(settings@, binary_path@) && json::all_unescaped(
            listen_command(binary_path@),
        ) ==> r,
{
    let listen = concat2(binary_path, " listen");
    match settings.get("hooks") {
        Some(Json::Object(members)) => {
            let ghost hooks = json::members_view(members@);
            let mut i: usize = 0;
            while i < members.len()
                invariant
                    i <= members@.len(),
                    hooks == json::members_view(members@),
                    hooks_in(settings@) == Some(hooks),
                    listen@ == listen_command(binary_path@),
                    forall|j: int|
                        0 <= j < i && (forall|k: int|
                            j < k < members@.len() ==> (#[trigger] members@[k]).0@
                                != members@[j].0@) ==> !config_names(
                            json::json_view((#[trigger] members@[j]).1),
                            binary_path@,
                        ) && !(json::holds_string(json::json_view(members@[j].1), listen@)
                            && json::all_unescaped(listen@)),
                decreases members@.len() - i,
            {
                if !is_shadowed(members, i) {
                    let rendered = members[i].1.render();
                    proof {
                        lemma_member_shadow(members@, i as int);
                        assert(json::json_view(members@[i as int].1) == members@[i as int].1@);
                    }
                    if contains_text(&rendered, &listen) {
                        proof {
                            let event = members@[i as int].0@;
                            assert(hooks.contains_key(event));
                            assert(config_names(hooks[event], binary_path@));
                            assert(hooks_in(settings@)->0.contains_key(event));
                            assert(names_command(settings@, binary_path@));
                        }
                        return true;
                    }
                }
                i += 1;
            }
            proof {
                assert forall|event: Seq<char>| #[trigger]
                    hooks.contains_key(event) implies !config_names(hooks[event], binary_path@)
                    && !(json::holds_string(hooks[event], listen@) && json::all_unescaped(
                    listen@,
                )) by {
                    lemma_member_listed(members@, event);
                }
            }
            false
        },
        _ => false,
    }
}

/// The settings file names the binary's listening command.
pub open spec fn is_installed(content: Option<Seq<char>>, binary: Seq<char>) -> bool {
    match content {
        Some(c) => match json::parsed_text(c) {
            Some(doc) => names_command(doc, binary),
            None => false,
        },
        None => false,
    }
}

/// Whether the hooks of a binary are in the settings file.
pub fn is_claude_hooks_installed(content: Option<&str>, binary_path: &str) -> (r: bool)
    ensures
        r == is_installed(text::text_view(content), binary_path@),
        match content {
            Some(c) => json::parsed_text(c@) is Some && runs_command(
                json::parsed_text(c@)->0,
                binary_path@,
            ) && json::all_unescaped(listen_command(binary_path@)) ==> r,
            None => true,
        },
{
    match content {
        Some(c) => match json::parse_text(c) {
            Ok(doc) => names_listener(&doc, binary_path),
            Err(_) => false,
        },
        None => false,
    }
}

/// What is written to the settings file at the start: nothing where the hooks are there.
pub fn ensure_claude_hooks(content: Option<&str>, binary_path: &str) -> (r: Result<
    Option<String>,
    InstallError,
>)
    ensures
        match r {
            Ok(None) => is_installed(text::text_view(content), binary_path@),
            Ok(Some(output)) => {
                &&& !is_installed(text::text_view(content), binary_path@)
                &&& merged(settings_of(text::text_view(content)), hooks_of(binary_path@)) is Ok
                &&& output@ == json::pretty_text(
                    merged(settings_of(text::text_view(content)), hooks_of(binary_path@))->Ok_0,
                )
            },
            Err(e) => !is_installed(text::text_view(content), binary_path@) && merged(
                settings_of(text::text_view(content)),
                hooks_of(binary_path@),
            ) == Err::<json::JsonView, _>(e),
        },
{
    if is_claude_hooks_installed(content, binary_path) {
        return Ok(None);
    }
    match install_settings(content, binary_path) {
        Ok(output) => Ok(Some(output)),
        Err(e) => Err(e),
    }
}

/// What settings said before stays: every member but the hooks, and the hooks of every event
/// that had some.
pub proof fn law_merge_keeps_settings(
    settings: json::JsonView,
    hooks: Map<Seq<char>, json::JsonView>,
    key: Seq<char>,
    event: Seq<char>,
)
    requires
        merged(settings, hooks) is Ok,
    ensures
        key != "hooks"@ ==> json::member(merged(settings, hooks)->Ok_0, key) == json::member(
            settings,
            key,
        ),
        hooks_in(settings) is Some && hooks_in(settings)->0.contains_key(event) ==> hooks_in(
            merged(settings, hooks)->Ok_0,
        )->0[event] == hooks_in(settings)->0[event],
{
}

/// After a merge every event has hooks.
pub proof fn law_merge_adds_missing_hooks(
    settings: json::JsonView,
    hooks: Map<Seq<char>, json::JsonView>,
    event: Seq<char>,
)
    requires
        merged(settings, hooks) is Ok,
        hooks.contains_key(event),
    ensures
        hooks_in(merged(settings, hooks)->Ok_0) is Some,
        hooks_in(merged(settings, hooks)->Ok_0)->0.contains_key(event),
        (hooks_in(settings) is None || !hooks_in(settings)->0.contains_key(event)) ==> hooks_in(
            merged(settings, hooks)->Ok_0,
        )->0[event] == hooks[event],
{
}

/// To merge hooks again changes nothing.
pub proof fn law_merge_is_idempotent(
    settings: json::JsonView,
    hooks: Map<Seq<char>, json::JsonView>,
)
    requires
        merged(settings, hooks) is Ok,
    ensures
        merged(merged(settings, hooks)->Ok_0, hooks) == merged(settings, hooks),
{
    let once = merged(settings, hooks)->Ok_0;
    let twice = merged(once, hooks)->Ok_0;
    let inner = hooks_in(once)->0;
    assert(hooks.union_prefer_right(inner) =~= inner);
    assert(once->Object_0.insert("hooks"@, json::JsonView::Object(inner)) =~= once->Object_0);
}

proof fn lemma_listener_holds_command(command: Seq<char>, approve: Seq<char>)
    ensures
        json::holds_string(matched_config(seq![command_hook(command)]), command),
        json::holds_string(plain_config(seq![command_hook(command)]), command),
        json::holds_string(
            matched_config(seq![command_hook(command), command_hook(approve)]),
            command,
        ),
{
    reveal_strlit("type");
    reveal_strlit("command");
    reveal_strlit("matcher");
    reveal_strlit("hooks");
    let hook = command_hook(command);
    assert(hook->Object_0.contains_key("command"@));
    assert(hook->Object_0["command"@] == json::JsonView::Str(command));
    assert(json::holds_string(hook->Object_0["command"@], command));
    assert(json::holds_string(hook, command));
    let single = seq![hook];
    let one = json::JsonView::Array(single);
    assert(json::holds_string(one->Array_0[0], command));
    assert(json::holds_string(one, command));
    let matched = matched_config(seq![hook])->Array_0[0];
    assert(matched->Object_0["hooks"@] == one);
    assert(json::holds_string(matched->Object_0["hooks"@], command));
    assert(json::holds_string(matched, command));
    assert(json::holds_string(matched_config(seq![hook])->Array_0[0], command));
    let plain = plain_config(seq![hook])->Array_0[0];
    assert(plain->Object_0["hooks"@] == one);
    assert(json::holds_string(plain->Object_0["hooks"@], command));
    assert(json::holds_string(plain, command));
    assert(json::holds_string(plain_config(seq![hook])->Array_0[0], command));
    let hooks = seq![hook, command_hook(approve)];
    let both = json::JsonView::Array(hooks);
    assert(json::holds_string(both->Array_0[0], command));
    assert(json::holds_string(both, command));
    let outer = matched_config(hooks)->Array_0[0];
    assert(outer->Object_0["hooks"@] == both);
    assert(json::holds_string(outer->Object_0["hooks"@], command));
    assert(json::holds_string(outer, command));
    assert(json::holds_string(matched_config(hooks)->Array_0[0], command));
}

/// Hooks that were installed are found: after a merge that added the hooks of some event, that
/// event runs the listening command.
pub proof fn law_installed_hooks_are_found(
    settings: json::JsonView,
    binary: Seq<char>,
    event: Seq<char>,
)
    requires
        merged(settings, hooks_of(binary)) is Ok,
        hooks_of(binary).contains_key(event),
        hooks_in(settings) is None || !hooks_in(settings)->0.contains_key(event),
    ensures
        runs_command(merged(settings, hooks_of(binary))->Ok_0, binary),
{
    let command = listen_command(binary);
    let after = hooks_in(merged(settings, hooks_of(binary))->Ok_0)->0;
    lemma_listener_holds_command(command, approve_command(binary));
    assert(after.contains_key(event));
    assert(after[event] == hooks_of(binary)[event]);
    let config = hooks_of(binary)[event];
    assert(config == matched_config(seq![command_hook(command)]) || config == plain_config(
        seq![command_hook(command)],
    ) || config == matched_config(
        seq![command_hook(command), command_hook(approve_command(binary))],
    ));
    assert(json::holds_string(after[event], command));
}

/// What is said after an installation.
pub open spec fn installed_text(
    target: Seq<char>,
    binary: Seq<char>,
    backup: Option<Seq<char>>,
) -> Seq<char> {
    match backup {
        Some(path) => "Installed hooks to: "@ + target + "\nBinary: "@ + binary
            + "\nBackup saved to: "@ + path,
        None => "Installed hooks to: "@ + target + "\nBinary: "@ + binary,
    }
}

/// What is said after an installation: where the hooks are, for which binary, and where the old
/// settings were saved.
pub fn install_message(target: &str, binary_path: &str, backup: Option<&str>) -> (r: String)
    ensures
        r@ == installed_text(target@, binary_path@, text::text_view(backup)),
{
    let mut message = concat4("Installed hooks to: ", target, "\nBinary: ", binary_path);
    if let Some(path) = backup {
        message.append("\nBackup saved to: ");
        message.append(path);
    }
    message
}

/// The extension of a saved file.
pub open spec fn extension_of(timestamp: Seq<char>, format: Seq<char>) -> Seq<char> {
    "backup."@ + timestamp + "."@ + format
}

/// The extension of a saved file: when it was saved, and what it is.
pub fn backup_extension(timestamp: &str, format: &str) -> (r: String)
    ensures
        r@ == extension_of(timestamp@, format@),
{
    concat4("backup.", timestamp, ".", format)
}

// ---------------------------------------------------------------------------
// Codex
// ---------------------------------------------------------------------------

/// The table that sends telemetry to this program.
pub open spec fn otel_table() -> tomldoc::TomlView {
    tomldoc::TomlView::Table(
        Map::<Seq<char>, tomldoc::TomlView>::empty().insert(
            "log_user_prompt"@,
            tomldoc::TomlView::Bool(true),
        ).insert(
            "exporter"@,
            tomldoc::TomlView::Table(
                Map::<Seq<char>, tomldoc::TomlView>::empty().insert(
                    "otlp-http"@,
                    tomldoc::TomlView::Table(
                        Map::<Seq<char>, tomldoc::TomlView>::empty().insert(
                            "endpoint"@,
                            tomldoc::TomlView::Str("http://localhost:4318/v1/logs"@),
                        ).insert("protocol"@, tomldoc::TomlView::Str("binary"@)),
                    ),
                ),
            ),
        ),
    )
}

/// The command that is notified.
pub open spec fn notify_array(binary: Seq<char>) -> tomldoc::TomlView {
    tomldoc::TomlView::Array(
        seq![tomldoc::TomlView::Str(binary), tomldoc::TomlView::Str("codex"@)],
    )
}

/// A table with a member, if it has none of that name.
pub open spec fn with_default(
    table: Map<Seq<char>, tomldoc::TomlView>,
    key: Seq<char>,
    value: tomldoc::TomlView,
) -> Map<Seq<char>, tomldoc::TomlView> {
    if table.contains_key(key) {
        table
    } else {
        table.insert(key, value)
    }
}

/// The configuration with telemetry and notification, where it has none.
pub open spec fn configured(
    table: Map<Seq<char>, tomldoc::TomlView>,
    binary: Seq<char>,
) -> Map<Seq<char>, tomldoc::TomlView> {
    with_default(with_default(table, "otel"@, otel_table()), "notify"@, notify_array(binary))
}

/// The configuration file has telemetry and notification.
pub open spec fn is_configured(content: Option<Seq<char>>) -> bool {
    match content {
        Some(c) => match tomldoc::parsed_toml(c) {
            Ok(tomldoc::TomlView::Table(table)) => table.contains_key("otel"@)
                && table.contains_key("notify"@),
            _ => false,
        },
        None => false,
    }
}

/// Why Codex could not be configured.
#[derive(Debug)]
pub enum CodexError {
    Parse(String),
    NotATable,
    QuotesInARow,
    Serialize(String),
}

impl CodexError {
    /// The error in words.
    pub open spec fn words(self) -> Seq<char> {
        match self {
            CodexError::Parse(e) => "Cannot parse config.toml: "@ + e@,
            CodexError::NotATable => "config.toml root is not a table"@,
            CodexError::QuotesInARow =>
                "Cannot serialize TOML: too many quotation marks in a row"@,
            CodexError::Serialize(e) => "Cannot serialize TOML: "@ + e@,
        }
    }

    /// The error in words.
    pub fn message(&self) -> (r: String)
        ensures
            r@ == self.words(),
    {
        match self {
            CodexError::Parse(e) => concat2("Cannot parse config.toml: ", e),
            CodexError::NotATable => "config.toml root is not a table".to_owned(),
            CodexError::QuotesInARow =>
                "Cannot serialize TOML: too many quotation marks in a row".to_owned(),
            CodexError::Serialize(e) => concat2("Cannot serialize TOML: ", e),
        }
    }
}

/// Whether the configuration file has telemetry and notification.
pub fn is_codex_configured(content: Option<&str>) -> (r: bool)
    ensures
        r == is_configured(text::text_view(content)),
{
    match content {
        Some(c) => match tomldoc::parse_toml(c) {
            Ok(value) => match tomldoc::open_toml(value) {
                TomlNode::Table(members) => tomldoc::has_key(&members, "otel")
                    && tomldoc::has_key(&members, "notify"),
                _ => false,
            },
            Err(_) => false,
        },
        None => false,
    }
}

fn make_otel_table() -> (r: toml::Value)
    ensures
        tomldoc::toml_model(r) == otel_table(),
{
    proof {
        reveal_strlit("endpoint");
        reveal_strlit("protocol");
        reveal_strlit("log_user_prompt");
        reveal_strlit("exporter");
        assert("endpoint"@[0] != "protocol"@[0]);
        assert("log_user_prompt"@.len() != "exporter"@.len());
    }
    let mut otlp_http: Vec<(String, toml::Value)> = Vec::new();
    tomldoc::put_toml(
        &mut otlp_http,
        "endpoint",
        tomldoc::close_toml(TomlNode::Str("http://localhost:4318/v1/logs".to_owned())),
    );
    tomldoc::put_toml(
        &mut otlp_http,
        "protocol",
        tomldoc::close_toml(TomlNode::Str("binary".to_owned())),
    );
    let mut exporter: Vec<(String, toml::Value)> = Vec::new();
    tomldoc::put_toml(&mut exporter, "otlp-http", tomldoc::close_toml(TomlNode::Table(otlp_http)));
    let mut otel: Vec<(String, toml::Value)> = Vec::new();
    tomldoc::put_toml(&mut otel, "log_user_prompt", tomldoc::close_toml(TomlNode::Bool(true)));
    tomldoc::put_toml(&mut otel, "exporter", tomldoc::close_toml(TomlNode::Table(exporter)));
    tomldoc::close_toml(TomlNode::Table(otel))
}

fn make_notify(binary_path: &str) -> (r: toml::Value)
    ensures
        tomldoc::toml_model(r) == notify_array(binary_path@),
{
    let mut items: Vec<toml::Value> = Vec::new();
    items.push(tomldoc::close_toml(TomlNode::Str(binary_path.to_owned())));
    items.push(tomldoc::close_toml(TomlNode::Str("codex".to_owned())));
    proof {
        assert(tomldoc::models(items@) =~= seq![
            tomldoc::TomlView::Str(binary_path@),
            tomldoc::TomlView::Str("codex"@),
        ]);
    }
    tomldoc::close_toml(TomlNode::Array(items))
}

/// What a configuration file says; a missing one says nothing.
pub open spec fn config_of(content: Option<Seq<char>>) -> Result<tomldoc::TomlView, Seq<char>> {
    match content {
        Some(c) => tomldoc::parsed_toml(c),
        None => Ok(tomldoc::TomlView::Table(Map::empty())),
    }
}

proof fn lemma_defaults_fit(binary: Seq<char>, names: nat)
    requires
        names >= 2,
    ensures
        tomldoc::table_fits(otel_table(), names),
        tomldoc::value_fits(notify_array(binary), tomldoc::NEST_LIMIT as nat),
        !tomldoc::lists_tables(notify_array(binary)->Array_0),
        "otel"@ != tomldoc::private_name(),
        "notify"@ != tomldoc::private_name(),
{
    reveal_with_fuel(tomldoc::table_fits, 4);
    reveal_with_fuel(tomldoc::value_fits, 2);
    reveal_strlit("$__toml_private_datetime");
    reveal_strlit("otel");
    reveal_strlit("notify");
    reveal_strlit("log_user_prompt");
    reveal_strlit("exporter");
    reveal_strlit("otlp-http");
    reveal_strlit("endpoint");
    reveal_strlit("protocol");
    let private = tomldoc::private_name();
    assert(private.len() == 24);
    assert("otel"@.len() != private.len() && "notify"@.len() != private.len());
    assert("log_user_prompt"@.len() != private.len() && "exporter"@.len() != private.len());
    assert("otlp-http"@.len() != private.len());
    assert("endpoint"@.len() != private.len() && "protocol"@.len() != private.len());
    let exporter = otel_table()->Table_0["exporter"@];
    let http = exporter->Table_0["otlp-http"@];
    assert(tomldoc::table_fits(http, (names - 2) as nat));
    assert(tomldoc::table_fits(exporter, (names - 1) as nat));
    assert(notify_array(binary)->Array_0[0] is Str);
}

proof fn lemma_defaults_hold_no_number(binary: Seq<char>, v: toml::Value, depth: nat)
    ensures
        !tomldoc::stands_in(v, otel_table(), depth),
        !tomldoc::stands_in(v, notify_array(binary), depth),
{
    reveal_with_fuel(tomldoc::stands_in, 4);
}

proof fn lemma_configured_reads_back(
    table: Map<Seq<char>, tomldoc::TomlView>,
    content: Option<Seq<char>>,
    binary: Seq<char>,
)
    requires
        config_of(content) == Ok::<_, Seq<char>>(tomldoc::TomlView::Table(table)),
        tomldoc::table_fits(tomldoc::TomlView::Table(table), tomldoc::NEST_LIMIT as nat),
    ensures
        tomldoc::table_fits(
            tomldoc::TomlView::Table(configured(table, binary)),
            tomldoc::NEST_LIMIT as nat,
        ),
        tomldoc::all_readable(tomldoc::TomlView::Table(configured(table, binary))),
{
    let all = configured(table, binary);
    let before = tomldoc::TomlView::Table(table);
    let after = tomldoc::TomlView::Table(all);
    let limit = tomldoc::NEST_LIMIT as nat;
    let inner = (limit - 1) as nat;
    lemma_defaults_fit(binary, inner);
    assert forall|k: Seq<char>| #![trigger after->Table_0[k]]
        after->Table_0.contains_key(k) implies match after->Table_0[k] {
        tomldoc::TomlView::Table(_) => tomldoc::table_fits(after->Table_0[k], inner),
        tomldoc::TomlView::Array(items) => if tomldoc::lists_tables(items) {
            forall|i: int|
                0 <= i < items.len() ==> tomldoc::table_fits(#[trigger] items[i], inner)
        } else {
            tomldoc::value_fits(after->Table_0[k], limit)
        },
        _ => true,
    } by {
        if table.contains_key(k) {
            assert(before->Table_0[k] == after->Table_0[k]);
        }
    }
    assert forall|v: toml::Value, depth: nat| #[trigger]
        tomldoc::stands_in(v, after, depth) implies tomldoc::is_readable(v) by {
        let less = (depth - 1) as nat;
        let k = choose|k: Seq<char>|
            after->Table_0.contains_key(k) && tomldoc::stands_in(
                v,
                #[trigger] after->Table_0[k],
                less,
            );
        lemma_defaults_hold_no_number(binary, v, less);
        assert(table.contains_key(k));
        assert(before->Table_0[k] == after->Table_0[k]);
        assert(tomldoc::stands_in(v, before, depth));
        assert(tomldoc::is_read_from(v, content->0, depth));
    }
}

/// What is written to the configuration file at the start: nothing where it is configured. A file
/// that was written is configured, and says what it said before.
pub fn ensure_codex_config(content: Option<&str>, binary_path: &str) -> (r: Result<
    Option<String>,
    CodexError,
>)
    ensures
        is_configured(text::text_view(content)) <==> r == Ok::<Option<String>, CodexError>(None),
        !is_configured(text::text_view(content)) ==> match config_of(text::text_view(content)) {
            Ok(tomldoc::TomlView::Table(table)) => if tomldoc::is_calm(
                tomldoc::TomlView::Table(configured(table, binary_path@)),
            ) {
                match tomldoc::pretty_toml(
                    tomldoc::TomlView::Table(configured(table, binary_path@)),
                ) {
                    Ok(output) => r is Ok && r->Ok_0 is Some && r->Ok_0->0@ == output && (
                    tomldoc::table_fits(
                        tomldoc::TomlView::Table(table),
                        tomldoc::NEST_LIMIT as nat,
                    ) ==> is_configured(Some(output)) && tomldoc::reads_back(
                        output,
                        tomldoc::TomlView::Table(configured(table, binary_path@)),
                    )),
                    Err(e) => r matches Err(CodexError::Serialize(m)) && m@ == e,
                }
            } else {
                r matches Err(CodexError::QuotesInARow)
            },
            Ok(_) => r matches Err(CodexError::NotATable),
            Err(e) => r matches Err(CodexError::Parse(m)) && m@ == e,
        },
{
    if is_codex_configured(content) {
        return Ok(None);
    }
    let root = match content {
        Some(c) => match tomldoc::parse_toml(c) {
            Ok(value) => value,
            Err(e) => {
                return Err(CodexError::Parse(e));
            },
        },
        None => {
            let empty: Vec<(String, toml::Value)> = Vec::new();
            tomldoc::close_toml(TomlNode::Table(empty))
        },
    };
    match tomldoc::open_toml(root) {
        TomlNode::Table(entries) => {
            let mut members = entries;
            let ghost table = tomldoc::table_model(members@);
            if !tomldoc::has_key(&members, "otel") {
                let otel = make_otel_table();
                tomldoc::put_toml(&mut members, "otel", otel);
            }
            if !tomldoc::has_key(&members, "notify") {
                let notify = make_notify(binary_path);
                tomldoc::put_toml(&mut members, "notify", notify);
            }
            let (value, calm) = tomldoc::test_calm(tomldoc::close_toml(TomlNode::Table(members)));
            if !calm {
                return Err(CodexError::QuotesInARow);
            }
            proof {
                law_configured_has_both(table, binary_path@);
                if tomldoc::table_fits(
                    tomldoc::TomlView::Table(table),
                    tomldoc::NEST_LIMIT as nat,
                ) {
                    lemma_configured_reads_back(table, text::text_view(content), binary_path@);
                }
            }
            match tomldoc::render_toml(&value) {
                Ok(output) => Ok(Some(output)),
                Err(e) => Err(CodexError::Serialize(e)),
            }
        },
        _ => Err(CodexError::NotATable),
    }
}

/// A configured table has telemetry and notification, and keeps all that it had.
pub proof fn law_configured_has_both(
    table: Map<Seq<char>, tomldoc::TomlView>,
    binary: Seq<char>,
)
    ensures
        configured(table, binary).contains_key("otel"@),
        configured(table, binary).contains_key("notify"@),
        forall|key: Seq<char>|
            table.contains_key(key) ==> configured(table, binary).contains_key(key)
                && #[trigger] configured(table, binary)[key] == table[key],
        configured(configured(table, binary), binary) == configured(table, binary),
{
}

/// A written configuration that is read back has telemetry and notification, so that nothing is
/// written again, and says of every name what it said before.
pub proof fn law_written_configuration_says_the_same(
    table: Map<Seq<char>, tomldoc::TomlView>,
    binary: Seq<char>,
    output: Seq<char>,
)
    requires
        table.dom().finite(),
        tomldoc::reads_back(output, tomldoc::TomlView::Table(configured(table, binary))),
    ensures
        is_configured(Some(output)),
        tomldoc::parsed_toml(output) is Ok,
        tomldoc::parsed_toml(output)->Ok_0 is Table,
        forall|key: Seq<char>|
            table.contains_key(key) ==> #[trigger] tomldoc::alike(
                table[key],
                tomldoc::parsed_toml(output)->Ok_0->Table_0[key],
            ),
        tomldoc::all_kept(tomldoc::TomlView::Table(configured(table, binary)))
            ==> tomldoc::parsed_toml(output)->Ok_0->Table_0 == configured(table, binary),
{
    law_configured_has_both(table, binary);
    let doc = tomldoc::TomlView::Table(configured(table, binary));
    let read = tomldoc::parsed_toml(output)->Ok_0;
    assert(tomldoc::alike(doc, read));
    assert forall|key: Seq<char>| table.contains_key(key) implies #[trigger] tomldoc::alike(
        table[key],
        read->Table_0[key],
    ) by {
        assert(tomldoc::alike(doc->Table_0[key], read->Table_0[key]));
    }
}

// ---------------------------------------------------------------------------
// What is installed
// ---------------------------------------------------------------------------

/// Hooks are installed for the events that there are, under their names, and for nothing else.
pub proof fn law_hooks_are_for_the_events(binary: Seq<char>, name: Seq<char>)
    ensures
        hooks_of(binary).contains_key(name) <==> exists|event: HookEvent|
            #[trigger] events::event_name(event) == name,
        forall|event: HookEvent|
            hooks_of(binary).contains_key(#[trigger] events::event_name(event)),
{
    if hooks_of(binary).contains_key(name) {
        let (a, b, c) = (
            HookEvent::SessionStart(arbitrary()),
            HookEvent::InstructionsLoaded(arbitrary()),
            HookEvent::UserPromptSubmit(arbitrary()),
        );
        let (d, e, f) = (
            HookEvent::PreToolUse(arbitrary()),
            HookEvent::PermissionRequest(arbitrary()),
            HookEvent::PostToolUse(arbitrary()),
        );
        let (g, h, i) = (
            HookEvent::PostToolUseFailure(arbitrary()),
            HookEvent::Notification(arbitrary()),
            HookEvent::SubagentStart(arbitrary()),
        );
        let (j, k, l) = (
            HookEvent::SubagentStop(arbitrary()),
            HookEvent::Stop(arbitrary()),
            HookEvent::TeammateIdle(arbitrary()),
        );
        let (m, n, o) = (
            HookEvent::TaskCompleted(arbitrary()),
            HookEvent::ConfigChange(arbitrary()),
            HookEvent::WorktreeCreate(arbitrary()),
        );
        let (p, q, r) = (
            HookEvent::WorktreeRemove(arbitrary()),
            HookEvent::PreCompact(arbitrary()),
            HookEvent::SessionEnd(arbitrary()),
        );
        assert(events::event_name(a) == name || events::event_name(b) == name || events::event_name(
            c,
        ) == name || events::event_name(d) == name || events::event_name(e) == name
            || events::event_name(f) == name || events::event_name(g) == name || events::event_name(
            h,
        ) == name || events::event_name(i) == name || events::event_name(j) == name
            || events::event_name(k) == name || events::event_name(l) == name || events::event_name(
            m,
        ) == name || events::event_name(n) == name || events::event_name(o) == name
            || events::event_name(p) == name || events::event_name(q) == name || events::event_name(
            r,
        ) == name);
    }
}

/// The document is a hook that runs a command.
pub open spec fn runs(hook: json::JsonView, command: Seq<char>) -> bool {
    &&& json::member(hook, "type"@) == Some(json::JsonView::Str("command"@))
    &&& json::member(hook, "command"@) == Some(json::JsonView::Str(command))
    &&& forall|key: Seq<char>|
        #[trigger] json::member(hook, key) is Some ==> key == "type"@ || key == "command"@
}

/// Every event runs the listening command of the binary first. A permission request, and no other
/// event, runs the approving command after it. Events that can be matched are matched with anything:
/// those of a session's ends, of tools, of notifications, of subagents, of the configuration
/// and of a compaction.
pub proof fn law_every_event_runs_the_listener(binary: Seq<char>, event: HookEvent)
    ensures
        ({
            let config = hooks_of(binary)[events::event_name(event)];
            let group = config->Array_0[0];
            let hooks = json::member(group, "hooks"@);
            let listed = hooks->0->Array_0;
            &&& config is Array && config->Array_0.len() == 1
            &&& hooks is Some && hooks->0 is Array
            &&& runs(listed[0], binary + " listen"@)
            &&& event is PermissionRequest ==> listed.len() == 2 && runs(
                listed[1],
                binary + " approve"@,
            )
            &&& !(event is PermissionRequest) ==> listed.len() == 1
            &&& json::member(group, "matcher"@) == (match event {
                HookEvent::SessionStart(_)
                | HookEvent::PreToolUse(_)
                | HookEvent::PermissionRequest(_)
                | HookEvent::PostToolUse(_)
                | HookEvent::PostToolUseFailure(_)
                | HookEvent::Notification(_)
                | HookEvent::SubagentStart(_)
                | HookEvent::SubagentStop(_)
                | HookEvent::ConfigChange(_)
                | HookEvent::PreCompact(_)
                | HookEvent::SessionEnd(_) => Some(json::JsonView::Str(""@)),
                HookEvent::InstructionsLoaded(_)
                | HookEvent::UserPromptSubmit(_)
                | HookEvent::Stop(_)
                | HookEvent::TeammateIdle(_)
                | HookEvent::TaskCompleted(_)
                | HookEvent::WorktreeCreate(_)
                | HookEvent::WorktreeRemove(_) => None,
            })
            &&& forall|key: Seq<char>|
                #[trigger] json::member(group, key) is Some ==> key == "hooks"@ || key
                    == "matcher"@
        }),
{
    events::lemma_type_names();
    reveal_strlit("type");
    reveal_strlit("command");
    reveal_strlit("matcher");
    reveal_strlit("hooks");
    assert("type"@.len() != "command"@.len() && "matcher"@.len() != "hooks"@.len());
    let listen = command_hook(listen_command(binary));
    let approve = command_hook(approve_command(binary));
    assert(runs(listen, binary + " listen"@));
    assert(runs(approve, binary + " approve"@));
    let config = hooks_of(binary)[events::event_name(event)];
    let matched = matched_config(seq![listen]);
    let plain = plain_config(seq![listen]);
    assert(match event {
        HookEvent::PermissionRequest(_) => config == matched_config(seq![listen, approve]),
        HookEvent::InstructionsLoaded(_)
        | HookEvent::UserPromptSubmit(_)
        | HookEvent::Stop(_)
        | HookEvent::TeammateIdle(_)
        | HookEvent::TaskCompleted(_)
        | HookEvent::WorktreeCreate(_)
        | HookEvent::WorktreeRemove(_) => config == plain,
        _ => config == matched,
    });
    let group = config->Array_0[0];
    assert(json::member(group, "hooks"@) is Some);
}

/// Hooks can be put into settings exactly if these are an object whose hooks, where it has some, are
/// an object too; the error tells which of the two is not.
pub proof fn law_merge_fails_only_on_wrong_kinds(
    settings: json::JsonView,
    hooks: Map<Seq<char>, json::JsonView>,
)
    ensures
        merged(settings, hooks) == Err::<json::JsonView, _>(InstallError::SettingsNotObject)
            <==> !(settings is Object),
        merged(settings, hooks) == Err::<json::JsonView, _>(InstallError::HooksNotObject)
            <==> settings is Object && json::member(settings, "hooks"@) is Some && !(json::member(
            settings,
            "hooks"@,
        )->0 is Object),
        merged(settings, hooks) is Ok ==> merged(settings, hooks)->Ok_0 is Object,
{
}

/// After a merge the settings have hooks for the events that had some and for the new ones, and for
/// no other.
pub proof fn law_merge_adds_nothing_else(
    settings: json::JsonView,
    hooks: Map<Seq<char>, json::JsonView>,
    event: Seq<char>,
)
    requires
        merged(settings, hooks) is Ok,
    ensures
        ({
            let after = json::member(merged(settings, hooks)->Ok_0, "hooks"@);
            &&& after is Some && after->0 is Object
            &&& json::member(after->0, event) is Some <==> hooks.contains_key(event) || (
            json::member(settings, "hooks"@) is Some && json::member(
                json::member(settings, "hooks"@)->0,
                event,
            ) is Some)
            &&& json::member(settings, "hooks"@) is Some && json::member(
                json::member(settings, "hooks"@)->0,
                event,
            ) is Some ==> json::member(after->0, event) == json::member(
                json::member(settings, "hooks"@)->0,
                event,
            )
        }),
{
}

/// A settings file that is missing or no JSON counts as empty, so that hooks can always be put into
/// it; any other says what it says.
pub proof fn law_unreadable_settings_are_empty(content: Option<Seq<char>>, key: Seq<char>)
    ensures
        content is None ==> json::member(settings_of(content), key) is None && settings_of(content)
            is Object,
        content is Some && json::parsed_text(content->0) is None ==> json::member(
            settings_of(content),
            key,
        ) is None && settings_of(content) is Object,
        content is Some && json::parsed_text(content->0) is Some ==> settings_of(content)
            == json::parsed_text(content->0)->0,
        content is None || json::parsed_text(content->0) is None ==> merged(
            settings_of(content),
            hooks_of(key),
        ) is Ok && hooks_in(merged(settings_of(content), hooks_of(key))->Ok_0) == Some(
            hooks_of(key),
        ),
{
}

/// The binary counts as installed exactly if the settings file can be read and its hooks hold, for
/// some event, the path of the binary followed by the word to listen.
pub proof fn law_installed_means_named(
    content: Seq<char>,
    hooks: Map<Seq<char>, json::JsonView>,
    binary: Seq<char>,
)
    ensures
        !is_installed(None, binary),
        json::parsed_text(content) is None ==> !is_installed(Some(content), binary),
        json::parsed_text(content) matches Some(doc) ==> (json::member(doc, "hooks"@) == Some(
            json::JsonView::Object(hooks),
        ) ==> (is_installed(Some(content), binary) <==> exists|event: Seq<char>|
            #[trigger] hooks.contains_key(event) && text::occurs_in(
                json::compact_text(hooks[event]),
                binary + " listen"@,
            ))),
        json::parsed_text(content) matches Some(doc) ==> (!(json::member(doc, "hooks"@) matches Some(
            json::JsonView::Object(_),
        )) ==> !is_installed(Some(content), binary)),
{
    if json::parsed_text(content) is Some {
        let doc = json::parsed_text(content)->0;
        if json::member(doc, "hooks"@) == Some(json::JsonView::Object(hooks)) {
            assert(hooks_in(doc) == Some(hooks));
            if exists|event: Seq<char>|
                #[trigger] hooks.contains_key(event) && text::occurs_in(
                    json::compact_text(hooks[event]),
                    binary + " listen"@,
                ) {
                let event = choose|event: Seq<char>|
                    #[trigger] hooks.contains_key(event) && text::occurs_in(
                        json::compact_text(hooks[event]),
                        binary + " listen"@,
                    );
                assert(hooks_in(doc)->0.contains_key(event) && config_names(hooks[event], binary));
            }
        }
    }
}

/// A scope is named by one of two words.
pub proof fn law_scope_by_name(name: Seq<char>)
    ensures
        scope_of(name) == Some(InstallScope::User) <==> name == "user"@,
        scope_of(name) == Some(InstallScope::Project) <==> name == "project"@,
        scope_of(name) is None <==> name != "user"@ && name != "project"@,
{
    reveal_strlit("user");
    reveal_strlit("project");
    assert("user"@.len() != "project"@.len());
}

/// What is said after an installation names the file and the binary, each on a line of its own, and
/// where something was saved, that file on a third.
pub proof fn law_installation_is_told(target: Seq<char>, binary: Seq<char>, path: Seq<char>)
    ensures
        installed_text(target, binary, None) == "Installed hooks to: "@ + target + "\nBinary: "@
            + binary,
        installed_text(target, binary, Some(path)) == installed_text(target, binary, None)
            + "\nBackup saved to: "@ + path,
{
}

// ---------------------------------------------------------------------------
// What Codex is told
// ---------------------------------------------------------------------------

/// The member of a table.
pub open spec fn toml_member(doc: tomldoc::TomlView, key: Seq<char>) -> Option<tomldoc::TomlView> {
    match doc {
        tomldoc::TomlView::Table(table) => if table.contains_key(key) {
            Some(table[key])
        } else {
            None
        },
        _ => None,
    }
}

/// Codex is told to send its telemetry, prompts and all, in the binary encoding of OTLP over HTTP to
/// this machine, and to notify the binary with the word for Codex.
pub proof fn law_codex_is_told_where_to_report(binary: Seq<char>)
    ensures
        ({
            let exporter = toml_member(otel_table(), "exporter"@);
            let http = toml_member(exporter->0, "otlp-http"@);
            &&& toml_member(otel_table(), "log_user_prompt"@) == Some(tomldoc::TomlView::Bool(true))
            &&& exporter is Some
            &&& http is Some
            &&& toml_member(http->0, "endpoint"@) == Some(
                tomldoc::TomlView::Str("http://localhost:4318/v1/logs"@),
            )
            &&& toml_member(http->0, "protocol"@) == Some(tomldoc::TomlView::Str("binary"@))
            &&& forall|key: Seq<char>|
                #[trigger] toml_member(otel_table(), key) is Some ==> key == "log_user_prompt"@
                    || key == "exporter"@
            &&& forall|key: Seq<char>|
                #[trigger] toml_member(exporter->0, key) is Some ==> key == "otlp-http"@
            &&& forall|key: Seq<char>|
                #[trigger] toml_member(http->0, key) is Some ==> key == "endpoint"@ || key
                    == "protocol"@
        }),
        notify_array(binary) is Array,
        notify_array(binary)->Array_0.len() == 2,
        notify_array(binary)->Array_0[0] == tomldoc::TomlView::Str(binary),
        notify_array(binary)->Array_0[1] == tomldoc::TomlView::Str("codex"@),
{
    reveal_strlit("endpoint");
    reveal_strlit("protocol");
    reveal_strlit("log_user_prompt");
    reveal_strlit("exporter");
    assert("endpoint"@[0] != "protocol"@[0]);
    assert("log_user_prompt"@.len() != "exporter"@.len());
}

/// Codex is configured for telemetry and notification, each only where it was not; no other name is
/// added.
pub proof fn law_configuration_adds_two_names(
    table: Map<Seq<char>, tomldoc::TomlView>,
    binary: Seq<char>,
    key: Seq<char>,
)
    ensures
        configured(table, binary).contains_key(key) <==> table.contains_key(key) || key == "otel"@
            || key == "notify"@,
        table.contains_key(key) ==> configured(table, binary)[key] == table[key],
        !table.contains_key("otel"@) ==> configured(table, binary)["otel"@] == otel_table(),
        !table.contains_key("notify"@) ==> configured(table, binary)["notify"@] == notify_array(
            binary,
        ),
{
    reveal_strlit("otel");
    reveal_strlit("notify");
    assert("otel"@.len() != "notify"@.len());
}

/// A file counts as configured exactly if it can be read and has both names; a missing one is
/// configured anew, from nothing.
pub proof fn law_configured_file_has_both_names(content: Seq<char>)
    ensures
        is_configured(Some(content)) <==> tomldoc::parsed_toml(content) is Ok && toml_member(
            tomldoc::parsed_toml(content)->Ok_0,
            "otel"@,
        ) is Some && toml_member(tomldoc::parsed_toml(content)->Ok_0, "notify"@) is Some,
        !is_configured(None),
        config_of(None) == Ok::<_, Seq<char>>(tomldoc::TomlView::Table(Map::empty())),
        config_of(Some(content)) == tomldoc::parsed_toml(content),
{
}

/// Every error is told in its own words, and one of the `toml` crate with that crate's words.
pub proof fn law_errors_in_words(e: String, other: String)
    ensures
        InstallError::SettingsNotObject.words() == "Settings is not a JSON object"@,
        InstallError::HooksNotObject.words() == "hooks is not a JSON object"@,
        CodexError::Parse(e).words() == "Cannot parse config.toml: "@ + e@,
        CodexError::NotATable.words() == "config.toml root is not a table"@,
        CodexError::Serialize(e).words() == "Cannot serialize TOML: "@ + e@,
        e@ == "too many quotation marks in a row"@ ==> CodexError::QuotesInARow.words()
            == CodexError::Serialize(e).words(),
        CodexError::Parse(e).words() != CodexError::Serialize(other).words(),
{
    reveal_strlit("Cannot parse config.toml: ");
    reveal_strlit("Cannot serialize TOML: ");
    reveal_strlit("too many quotation marks in a row");
    reveal_strlit("Cannot serialize TOML: too many quotation marks in a row");
    assert("Cannot serialize TOML: too many quotation marks in a row"@
        =~= "Cannot serialize TOML: "@ + "too many quotation marks in a row"@);
    let parse = CodexError::Parse(e).words();
    let serialize = CodexError::Serialize(other).words();
    assert(parse[7] == 'p' && serialize[7] == 's');
}

/// The settings of the user are in the home directory, those of a project are not; in both places
/// they have the same name. What is saved of them is named by when and what it is.
pub proof fn law_where_settings_are(dir: Seq<char>, timestamp: Seq<char>, format: Seq<char>)
    ensures
        is_in_home(InstallScope::User),
        !is_in_home(InstallScope::Project),
        settings_parts(dir).len() == 2,
        settings_parts(dir)[0] == dir,
        settings_parts(dir)[1] == "settings.json"@,
        extension_of(timestamp, format) == "backup."@ + timestamp + "."@ + format,
{
}

/// Settings run the binary's listening command exactly if they have hooks and those of some event
/// hold it as a string.
pub proof fn law_running_means_held(
    settings: json::JsonView,
    hooks: Map<Seq<char>, json::JsonView>,
    binary: Seq<char>,
)
    ensures
        json::member(settings, "hooks"@) == Some(json::JsonView::Object(hooks)) ==> (runs_command(
            settings,
            binary,
        ) <==> exists|event: Seq<char>|
            #[trigger] hooks.contains_key(event) && json::holds_string(
                hooks[event],
                binary + " listen"@,
            )),
        !(json::member(settings, "hooks"@) matches Some(json::JsonView::Object(_)))
            ==> !runs_command(settings, binary),
{
    if json::member(settings, "hooks"@) == Some(json::JsonView::Object(hooks)) {
        assert(hooks_in(settings) == Some(hooks));
        if exists|event: Seq<char>|
            #[trigger] hooks.contains_key(event) && json::holds_string(
                hooks[event],
                binary + " listen"@,
            ) {
            let event = choose|event: Seq<char>|
                #[trigger] hooks.contains_key(event) && json::holds_string(
                    hooks[event],
                    binary + " listen"@,
                );
            assert(hooks_in(settings)->0.contains_key(event));
        }
    }
}

} // verus!
