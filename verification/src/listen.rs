//! What a hook hands over, and the commands of the program.

use vstd::prelude::*;

use crate::i18n;
use crate::i18n::{
    translate, translate_app_about, translate_listen_about, AppLanguage, TranslationKey,
};
use crate::installer;
use crate::json;
use crate::json::Json;
use crate::text;
use crate::tomldoc;

verus! {

/// What was read from a hook.
#[derive(Debug)]
pub enum HookInput {
    Empty,
    NotJson,
    Document(Json),
}

/// What was read from a hook: nothing but blanks, no JSON, or a document.
pub fn read_hook_input(input: &str) -> (r: HookInput)
    ensures
        match r {
            HookInput::Empty => text::trimmed(input@).len() == 0,
            HookInput::NotJson => text::trimmed(input@).len() > 0 && json::parsed_text(
                input@,
            ) is None,
            HookInput::Document(doc) => text::trimmed(input@).len() > 0 && json::parsed_text(
                input@,
            ) == Some(doc@),
        },
{
    if text::trim(input).as_str().unicode_len() == 0 {
        return HookInput::Empty;
    }
    match json::parse_text(input) {
        Ok(doc) => HookInput::Document(doc),
        Err(_) => HookInput::NotJson,
    }
}

/// The commands of the program.
#[derive(Clone, Copy, PartialEq, Eq, Debug, Structural)]
pub enum CommandKind {
    Listen,
    Install,
    Tail,
    Status,
    Gui,
    Cat,
    Approve,
    MiniCat,
    Server,
}

impl CommandKind {
    /// The command sets the agents up first. Commands that a hook runs do not.
    pub open spec fn sets_up(self) -> bool {
        match self {
            CommandKind::Gui => true,
            CommandKind::Tail => true,
            CommandKind::Status => true,
            CommandKind::Cat => true,
            CommandKind::Server => true,
            _ => false,
        }
    }

    /// Whether the command sets the agents up first.
    pub fn needs_auto_setup(self) -> (r: bool)
        ensures
            r == self.sets_up(),
    {
        match self {
            CommandKind::Gui => true,
            CommandKind::Tail => true,
            CommandKind::Status => true,
            CommandKind::Cat => true,
            CommandKind::Server => true,
            _ => false,
        }
    }
}

/// The port that telemetry is received on, unless another one is given.
pub const DEFAULT_PORT: u16 = 4318;

/// The help of a command: its name, what it is about, and its argument, if it has one.
#[derive(Debug)]
pub struct CommandHelp {
    pub kind: CommandKind,
    pub name: &'static str,
    pub about: String,
    pub argument: Option<(&'static str, &'static str)>,
}

/// What the help of a command says.
#[verifier::ext_equal]
pub struct HelpView {
    pub kind: CommandKind,
    pub name: Seq<char>,
    pub about: Seq<char>,
    pub argument: Option<(Seq<char>, Seq<char>)>,
}

impl View for CommandHelp {
    type V = HelpView;

    open spec fn view(&self) -> HelpView {
        HelpView {
            kind: self.kind,
            name: self.name@,
            about: self.about@,
            argument: match self.argument {
                Some((name, help)) => Some((name@, help@)),
                None => None,
            },
        }
    }
}

/// What the help of a command says in a language.
pub open spec fn help_of(
    language: AppLanguage,
    kind: CommandKind,
    name: Seq<char>,
    about: Seq<char>,
    argument: Option<(Seq<char>, TranslationKey)>,
) -> HelpView {
    HelpView {
        kind,
        name,
        about,
        argument: match argument {
            Some((argument_name, key)) => Some((argument_name, i18n::translated(language, key))),
            None => None,
        },
    }
}

/// The help of all commands in a language, for an agent.
pub open spec fn all_help(language: AppLanguage, agent: Seq<char>) -> Seq<HelpView> {
    seq![
        help_of(
            language,
            CommandKind::Listen,
            "listen"@,
            i18n::listen_about(language, agent),
            None,
        ),
        help_of(
            language,
            CommandKind::Install,
            "install"@,
            i18n::translated(language, TranslationKey::CliInstallAbout),
            Some(("scope"@, TranslationKey::CliInstallScopeHelp)),
        ),
        help_of(
            language,
            CommandKind::Tail,
            "tail"@,
            i18n::translated(language, TranslationKey::CliTailAbout),
            Some(("filter"@, TranslationKey::CliFilterHelp)),
        ),
        help_of(
            language,
            CommandKind::Status,
            "status"@,
            i18n::translated(language, TranslationKey::CliStatusAbout),
            None,
        ),
        help_of(
            language,
            CommandKind::Gui,
            "gui"@,
            i18n::translated(language, TranslationKey::CliGuiAbout),
            Some(("filter"@, TranslationKey::CliFilterHelp)),
        ),
        help_of(
            language,
            CommandKind::Cat,
            "cat"@,
            i18n::translated(language, TranslationKey::CliCatAbout),
            None,
        ),
        help_of(
            language,
            CommandKind::Approve,
            "approve"@,
            i18n::translated(language, TranslationKey::CliApproveAbout),
            None,
        ),
        help_of(
            language,
            CommandKind::MiniCat,
            "mini-cat"@,
            i18n::translated(language, TranslationKey::CliMiniCatAbout),
            Some(("agent_id"@, TranslationKey::CliMiniCatAgentIdHelp)),
        ),
        help_of(
            language,
            CommandKind::Server,
            "server"@,
            i18n::translated(language, TranslationKey::CliServerAbout),
            Some(("port"@, TranslationKey::CliServerPortHelp)),
        ),
    ]
}

/// The views of helps.
pub open spec fn help_views(helps: Seq<CommandHelp>) -> Seq<HelpView> {
    helps.map_values(|h: CommandHelp| h@)
}

fn make_help(
    language: AppLanguage,
    kind: CommandKind,
    name: &'static str,
    about: String,
    argument: Option<(&'static str, TranslationKey)>,
) -> (r: CommandHelp)
    ensures
        r@ == help_of(
            language,
            kind,
            name@,
            about@,
            (match argument {
                Some((argument_name, key)) => Some((argument_name@, key)),
                None => None,
            }),
        ),
{
    CommandHelp {
        kind,
        name,
        about,
        argument: match argument {
            Some((argument_name, key)) => Some((argument_name, translate(language, key))),
            None => None,
        },
    }
}

/// What the program is about, in a language, for an agent.
pub fn program_about(language: AppLanguage, agent: &str) -> (r: String)
    ensures
        r@ == i18n::app_about(language, agent@),
{
    translate_app_about(language, agent)
}

/// The help of all commands in a language, for an agent.
pub fn build_localized_help(language: AppLanguage, agent: &str) -> (r: Vec<CommandHelp>)
    ensures
        help_views(r@) == all_help(language, agent@),
{
    let mut out: Vec<CommandHelp> = Vec::new();
    out.push(
        make_help(language, CommandKind::Listen, "listen", translate_listen_about(language, agent), None),
    );
    out.push(
        make_help(
            language,
            CommandKind::Install,
            "install",
            translate(language, TranslationKey::CliInstallAbout).to_owned(),
            Some(("scope", TranslationKey::CliInstallScopeHelp)),
        ),
    );
    out.push(
        make_help(
            language,
            CommandKind::Tail,
            "tail",
            translate(language, TranslationKey::CliTailAbout).to_owned(),
            Some(("filter", TranslationKey::CliFilterHelp)),
        ),
    );
    out.push(
        make_help(language, CommandKind::Status, "status", translate(language, TranslationKey::CliStatusAbout).to_owned(), None),
    );
    out.push(
        make_help(
            language,
            CommandKind::Gui,
            "gui",
            translate(language, TranslationKey::CliGuiAbout).to_owned(),
            Some(("filter", TranslationKey::CliFilterHelp)),
        ),
    );
    out.push(make_help(language, CommandKind::Cat, "cat", translate(language, TranslationKey::CliCatAbout).to_owned(), None));
    out.push(
        make_help(
            language,
            CommandKind::Approve,
            "approve",
            translate(language, TranslationKey::CliApproveAbout).to_owned(),
            None,
        ),
    );
    out.push(
        make_help(
            language,
            CommandKind::MiniCat,
            "mini-cat",
            translate(language, TranslationKey::CliMiniCatAbout).to_owned(),
            Some(("agent_id", TranslationKey::CliMiniCatAgentIdHelp)),
        ),
    );
    out.push(
        make_help(
            language,
            CommandKind::Server,
            "server",
            translate(language, TranslationKey::CliServerAbout).to_owned(),
            Some(("port", TranslationKey::CliServerPortHelp)),
        ),
    );
    proof {
        assert(help_views(out@) =~= all_help(language, agent@));
    }
    out
}

/// A command sets the agents up first, unless a hook runs it or it is itself about setting up.
pub proof fn law_who_sets_up(kind: CommandKind)
    ensures
        !kind.sets_up() <==> kind == CommandKind::Listen || kind == CommandKind::Install || kind
            == CommandKind::Approve || kind == CommandKind::MiniCat,
{
}

/// The help has one part for each command, under its name, and these are all. Five of the commands
/// have an argument.
pub proof fn law_help_of_each_command(
    language: AppLanguage,
    agent: Seq<char>,
    kind: CommandKind,
    i: int,
)
    requires
        0 <= i < all_help(language, agent).len(),
        all_help(language, agent)[i].kind == kind,
    ensures
        all_help(language, agent).len() == 9,
        all_help(language, agent)[i].name == (match kind {
            CommandKind::Listen => "listen"@,
            CommandKind::Install => "install"@,
            CommandKind::Tail => "tail"@,
            CommandKind::Status => "status"@,
            CommandKind::Gui => "gui"@,
            CommandKind::Cat => "cat"@,
            CommandKind::Approve => "approve"@,
            CommandKind::MiniCat => "mini-cat"@,
            CommandKind::Server => "server"@,
        }),
        all_help(language, agent)[i].about == (match kind {
            CommandKind::Listen => i18n::listen_about(language, agent),
            CommandKind::Install => i18n::translated(language, TranslationKey::CliInstallAbout),
            CommandKind::Tail => i18n::translated(language, TranslationKey::CliTailAbout),
            CommandKind::Status => i18n::translated(language, TranslationKey::CliStatusAbout),
            CommandKind::Gui => i18n::translated(language, TranslationKey::CliGuiAbout),
            CommandKind::Cat => i18n::translated(language, TranslationKey::CliCatAbout),
            CommandKind::Approve => i18n::translated(language, TranslationKey::CliApproveAbout),
            CommandKind::MiniCat => i18n::translated(language, TranslationKey::CliMiniCatAbout),
            CommandKind::Server => i18n::translated(language, TranslationKey::CliServerAbout),
        }),
        all_help(language, agent)[i].argument == (match kind {
            CommandKind::Install => Some(
                ("scope"@, i18n::translated(language, TranslationKey::CliInstallScopeHelp)),
            ),
            CommandKind::Tail => Some(
                ("filter"@, i18n::translated(language, TranslationKey::CliFilterHelp)),
            ),
            CommandKind::Gui => Some(
                ("filter"@, i18n::translated(language, TranslationKey::CliFilterHelp)),
            ),
            CommandKind::MiniCat => Some(
                ("agent_id"@, i18n::translated(language, TranslationKey::CliMiniCatAgentIdHelp)),
            ),
            CommandKind::Server => Some(
                ("port"@, i18n::translated(language, TranslationKey::CliServerPortHelp)),
            ),
            _ => None,
        }),
{
}

/// Every command has its help.
pub proof fn law_every_command_has_help(
    language: AppLanguage,
    agent: Seq<char>,
    kind: CommandKind,
)
    ensures
        exists|i: int|
            0 <= i < all_help(language, agent).len() && (#[trigger] all_help(
                language,
                agent,
            )[i]).kind == kind,
{
    let all = all_help(language, agent);
    assert(all[0].kind == kind || all[1].kind == kind || all[2].kind == kind || all[3].kind == kind
        || all[4].kind == kind || all[5].kind == kind || all[6].kind == kind || all[7].kind == kind
        || all[8].kind == kind);
}

/// The commands that the hooks run are commands of the program.
pub proof fn law_hooks_run_commands(language: AppLanguage, agent: Seq<char>, binary: Seq<char>)
    ensures
        installer::listen_command(binary) == binary + " "@ + all_help(language, agent)[0].name,
        all_help(language, agent)[0].kind == CommandKind::Listen,
        installer::approve_command(binary) == binary + " "@ + all_help(language, agent)[6].name,
        all_help(language, agent)[6].kind == CommandKind::Approve,
{
    reveal_strlit(" ");
    reveal_strlit("listen");
    reveal_strlit(" listen");
    reveal_strlit("approve");
    reveal_strlit(" approve");
    assert(" listen"@ =~= " "@ + "listen"@);
    assert(" approve"@ =~= " "@ + "approve"@);
    assert(binary + " listen"@ =~= binary + " "@ + "listen"@);
    assert(binary + " approve"@ =~= binary + " "@ + "approve"@);
}

/// Codex is told to report to the port that is listened on unless another one is given.
pub proof fn law_codex_reports_to_the_default_port()
    ensures
        installer::toml_member(
            installer::toml_member(
                installer::toml_member(installer::otel_table(), "exporter"@)->0,
                "otlp-http"@,
            )->0,
            "endpoint"@,
        ) == Some(
            tomldoc::TomlView::Str(
                "http://localhost:"@ + text::decimal(DEFAULT_PORT as nat) + "/v1/logs"@,
            ),
        ),
{
    installer::law_codex_is_told_where_to_report(Seq::empty());
    reveal_strlit("http://localhost:");
    reveal_strlit("/v1/logs");
    reveal_strlit("http://localhost:4318/v1/logs");
    reveal_with_fuel(text::decimal, 5);
    let digits = text::decimal(DEFAULT_PORT as nat);
    assert(digits =~= seq!['4', '3', '1', '8']);
    assert("http://localhost:4318/v1/logs"@ =~= "http://localhost:"@ + digits + "/v1/logs"@);
}

} // verus!
