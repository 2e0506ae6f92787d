//! The language of the texts that the user reads.

use vstd::prelude::*;

use crate::events;
use crate::events::HookEvent;
use crate::gui;
use crate::text;
use crate::text::{concat2, concat3, same_text};

verus! {

/// The languages that there are texts in.
#[derive(Clone, Copy, PartialEq, Eq, Debug, Structural)]
pub enum AppLanguage {
    English,
    SimplifiedChinese,
}

/// The stored value of no choice.
pub const LANGUAGE_OVERRIDE_AUTO: u8 = 0;

/// The stored value of English.
pub const LANGUAGE_OVERRIDE_ENGLISH: u8 = 1;

/// The stored value of simplified Chinese.
pub const LANGUAGE_OVERRIDE_SIMPLIFIED_CHINESE: u8 = 2;

/// A locale is Chinese: but for blanks around it, it starts with `zh` in any case.
pub open spec fn is_chinese(locale: Seq<char>) -> bool {
    let name = text::trimmed(locale);
    &&& name.len() >= 2
    &&& name[0] == 'z' || name[0] == 'Z'
    &&& name[1] == 'h' || name[1] == 'H'
}

/// The language of a locale.
pub open spec fn locale_language(locale: Seq<char>) -> AppLanguage {
    if is_chinese(locale) {
        AppLanguage::SimplifiedChinese
    } else {
        AppLanguage::English
    }
}

/// The stored value of a language.
pub open spec fn storage_value(language: AppLanguage) -> u8 {
    match language {
        AppLanguage::English => LANGUAGE_OVERRIDE_ENGLISH,
        AppLanguage::SimplifiedChinese => LANGUAGE_OVERRIDE_SIMPLIFIED_CHINESE,
    }
}

/// The language of a stored value; any other value is no choice.
pub open spec fn stored_language(value: u8) -> Option<AppLanguage> {
    if value == LANGUAGE_OVERRIDE_ENGLISH {
        Some(AppLanguage::English)
    } else if value == LANGUAGE_OVERRIDE_SIMPLIFIED_CHINESE {
        Some(AppLanguage::SimplifiedChinese)
    } else {
        None
    }
}

impl AppLanguage {
    /// The language of a locale such as `en-US` or `zh-Hans`.
    pub fn from_locale_identifier(locale_identifier: &str) -> (r: AppLanguage)
        ensures
            r == locale_language(locale_identifier@),
    {
        let name = text::chars_of(text::trim(locale_identifier).as_str());
        if name.len() >= 2 && (name[0] == 'z' || name[0] == 'Z') && (name[1] == 'h' || name[1]
            == 'H') {
            AppLanguage::SimplifiedChinese
        } else {
            AppLanguage::English
        }
    }

    /// The stored value of the language.
    pub fn to_storage_value(self) -> (r: u8)
        ensures
            r == storage_value(self),
    {
        match self {
            AppLanguage::English => LANGUAGE_OVERRIDE_ENGLISH,
            AppLanguage::SimplifiedChinese => LANGUAGE_OVERRIDE_SIMPLIFIED_CHINESE,
        }
    }

    /// The language of a stored value.
    pub fn from_storage_value(value: u8) -> (r: Option<AppLanguage>)
        ensures
            r == stored_language(value),
    {
        if value == LANGUAGE_OVERRIDE_ENGLISH {
            Some(AppLanguage::English)
        } else if value == LANGUAGE_OVERRIDE_SIMPLIFIED_CHINESE {
            Some(AppLanguage::SimplifiedChinese)
        } else {
            None
        }
    }
}

/// What a stored language reads back as.
pub proof fn law_storage_reads_back(language: AppLanguage)
    ensures
        stored_language(storage_value(language)) == Some(language),
        stored_language(LANGUAGE_OVERRIDE_AUTO) is None,
{
}

// ---------------------------------------------------------------------------
// The choice of a language
// ---------------------------------------------------------------------------

/// The language that the user chose, as it is stored.
#[derive(Clone, Copy, PartialEq, Eq, Debug, Structural)]
pub struct LanguageOverride {
    pub value: u8,
}

impl LanguageOverride {
    /// No choice.
    pub fn new() -> (r: LanguageOverride)
        ensures
            stored_language(r.value) is None,
            r.value == LANGUAGE_OVERRIDE_AUTO,
    {
        LanguageOverride { value: LANGUAGE_OVERRIDE_AUTO }
    }
}

/// Chooses a language, or none.
pub fn set_language_override(chosen: &mut LanguageOverride, language: Option<AppLanguage>)
    ensures
        final(chosen).value == (match language {
            Some(l) => storage_value(l),
            None => LANGUAGE_OVERRIDE_AUTO,
        }),
        stored_language(final(chosen).value) == language,
{
    chosen.value = match language {
        Some(l) => l.to_storage_value(),
        None => LANGUAGE_OVERRIDE_AUTO,
    };
}

/// The language that was chosen.
pub fn language_override(chosen: &LanguageOverride) -> (r: Option<AppLanguage>)
    ensures
        r == stored_language(chosen.value),
{
    AppLanguage::from_storage_value(chosen.value)
}

/// The language in use: the chosen one, else the one of the locale, else English.
pub open spec fn resolved_language(
    locale: Option<Seq<char>>,
    chosen: Option<AppLanguage>,
) -> AppLanguage {
    match chosen {
        Some(language) => language,
        None => match locale {
            Some(name) => locale_language(name),
            None => AppLanguage::English,
        },
    }
}

/// The language in use.
pub fn resolve_language(
    locale_identifier: Option<&str>,
    override_language: Option<AppLanguage>,
) -> (r: AppLanguage)
    ensures
        r == resolved_language(text::text_view(locale_identifier), override_language),
{
    match override_language {
        Some(language) => language,
        None => match locale_identifier {
            Some(locale) => AppLanguage::from_locale_identifier(locale),
            None => AppLanguage::English,
        },
    }
}

/// The language in use, for the locale that the system tells.
pub fn current_language(chosen: &LanguageOverride, detected: Option<&str>) -> (r: AppLanguage)
    ensures
        r == resolved_language(text::text_view(detected), stored_language(chosen.value)),
{
    resolve_language(detected, language_override(chosen))
}

/// A choice comes before any locale, and holds until it is taken back.
pub proof fn law_choice_comes_first(locale: Option<Seq<char>>, language: AppLanguage)
    ensures
        resolved_language(locale, stored_language(storage_value(language))) == language,
        resolved_language(locale, stored_language(LANGUAGE_OVERRIDE_AUTO)) == (match locale {
            Some(name) => locale_language(name),
            None => AppLanguage::English,
        }),
{
}

/// The locale that an environment variable names: without its encoding, and only if anything is
/// left.
pub open spec fn env_locale(value: Seq<char>) -> Option<Seq<char>> {
    let name = text::trimmed(text::parts_of(value, '.')[0]);
    if name.len() > 0 {
        Some(name)
    } else {
        None
    }
}

/// The locale of the environment: that of the first variable that is set.
pub open spec fn environment_locale(
    lc_all: Option<Seq<char>>,
    lang: Option<Seq<char>>,
) -> Option<Seq<char>> {
    match (lc_all, lang) {
        (Some(value), _) => env_locale(value),
        (None, Some(value)) => env_locale(value),
        (None, None) => None,
    }
}

/// The locale that the system tells, else that of the environment.
pub open spec fn system_locale(
    preferred: Option<Seq<char>>,
    lc_all: Option<Seq<char>>,
    lang: Option<Seq<char>>,
) -> Option<Seq<char>> {
    match preferred {
        Some(locale) => Some(locale),
        None => environment_locale(lc_all, lang),
    }
}

/// The locale of the environment: that of the first variable that is set.
pub fn detect_env_locale_identifier(lc_all: Option<&str>, lang: Option<&str>) -> (r: Option<String>)
    ensures
        text::string_view(r) == environment_locale(text::text_view(lc_all), text::text_view(lang)),
{
    let value = match lc_all {
        Some(v) => v,
        None => match lang {
            Some(v) => v,
            None => {
                return None;
            },
        },
    };
    let parts = text::split_on(value, '.');
    proof {
        text::lemma_some_part(value@, '.');
        assert(text::views(parts@)[0] == parts@[0]@);
    }
    let name = text::trim(&parts[0]);
    if name.as_str().unicode_len() > 0 {
        Some(name)
    } else {
        None
    }
}

/// The locale that the system tells, else that of the environment.
pub fn detect_system_locale_identifier(
    preferred: Option<String>,
    lc_all: Option<&str>,
    lang: Option<&str>,
) -> (r: Option<String>)
    ensures
        text::string_view(r) == system_locale(
            text::string_view(preferred),
            text::text_view(lc_all),
            text::text_view(lang),
        ),
{
    match preferred {
        Some(locale) => Some(locale),
        None => detect_env_locale_identifier(lc_all, lang),
    }
}

// ---------------------------------------------------------------------------
// Texts
// ---------------------------------------------------------------------------

/// What a text is about, whatever its language.
#[derive(Clone, Copy, PartialEq, Eq, Debug, Structural)]
pub enum TranslationKey {
    EventMonitor,
    Quit,
    DisplayLocation,
    Automatic,
    OnlyOneDisplayDetected,
    GuiWindowTitle,
    GuiFilterLabel,
    GuiAutoScroll,
    GuiClear,
    GuiEventSingular,
    GuiEventPlural,
    GuiEventCountChineseUnit,
    CliInstallAbout,
    CliInstallScopeHelp,
    CliTailAbout,
    CliFilterHelp,
    CliStatusAbout,
    CliGuiAbout,
    CliCatAbout,
    CliApproveAbout,
    CliMiniCatAbout,
    CliMiniCatAgentIdHelp,
    CliServerAbout,
    CliServerPortHelp,
}

/// The English text.
pub open spec fn english(key: TranslationKey) -> Seq<char> {
    match key {
        TranslationKey::EventMonitor => "Event Monitor"@,
        TranslationKey::Quit => "Quit"@,
        TranslationKey::DisplayLocation => "Display Location"@,
        TranslationKey::Automatic => "Automatic"@,
        TranslationKey::OnlyOneDisplayDetected => "Only one display detected"@,
        TranslationKey::GuiWindowTitle => "VibeCat Event Monitor"@,
        TranslationKey::GuiFilterLabel => "Filter:"@,
        TranslationKey::GuiAutoScroll => "Auto-scroll"@,
        TranslationKey::GuiClear => "Clear"@,
        TranslationKey::GuiEventSingular => "event"@,
        TranslationKey::GuiEventPlural => "events"@,
        TranslationKey::GuiEventCountChineseUnit => "events"@,
        TranslationKey::CliInstallAbout => "Install hook configuration into settings.json"@,
        TranslationKey::CliInstallScopeHelp => "Installation scope: user (global) or project"@,
        TranslationKey::CliTailAbout => "Stream event logs in real time"@,
        TranslationKey::CliFilterHelp => "Filter by event type, for example PreToolUse or Stop"@,
        TranslationKey::CliStatusAbout => "Show a summary of recent event status"@,
        TranslationKey::CliGuiAbout => "Open a topmost window for event logs"@,
        TranslationKey::CliCatAbout => "Launch the desktop pet cat"@,
        TranslationKey::CliApproveAbout => "Handle PermissionRequest confirmation"@,
        TranslationKey::CliMiniCatAbout => "Launch a mini cat for subagent events and exit automatically"@,
        TranslationKey::CliMiniCatAgentIdHelp => "Subagent agent_id used to match SubagentStop"@,
        TranslationKey::CliServerAbout => "Start the Codex OTel HTTP receiver"@,
        TranslationKey::CliServerPortHelp => "Listening port, defaults to 4318"@,
    }
}

/// The text in simplified Chinese.
pub open spec fn chinese(key: TranslationKey) -> Seq<char> {
    match key {
        TranslationKey::EventMonitor => "事件监控"@,
        TranslationKey::Quit => "退出"@,
        TranslationKey::DisplayLocation => "显示位置"@,
        TranslationKey::Automatic => "自动"@,
        TranslationKey::OnlyOneDisplayDetected => "当前仅检测到一个显示器"@,
        TranslationKey::GuiWindowTitle => "VibeCat 事件监控"@,
        TranslationKey::GuiFilterLabel => "筛选："@,
        TranslationKey::GuiAutoScroll => "自动滚动"@,
        TranslationKey::GuiClear => "清空"@,
        TranslationKey::GuiEventSingular => "条事件"@,
        TranslationKey::GuiEventPlural => "条事件"@,
        TranslationKey::GuiEventCountChineseUnit => "条事件"@,
        TranslationKey::CliInstallAbout => "安装 hook 配置到 settings.json"@,
        TranslationKey::CliInstallScopeHelp => "安装范围：user（全局）或 project（项目级别）"@,
        TranslationKey::CliTailAbout => "实时查看事件日志（类似 tail -f）"@,
        TranslationKey::CliFilterHelp => "按事件类型过滤（如 PreToolUse、Stop 等）"@,
        TranslationKey::CliStatusAbout => "显示最近事件的状态摘要"@,
        TranslationKey::CliGuiAbout => "打开置顶窗口显示事件日志"@,
        TranslationKey::CliCatAbout => "启动桌面宠物猫"@,
        TranslationKey::CliApproveAbout => "处理 PermissionRequest 确认（被 hook 调用）"@,
        TranslationKey::CliMiniCatAbout => "启动迷你猫（被 subagent 触发，自动退出）"@,
        TranslationKey::CliMiniCatAgentIdHelp => "subagent 的 agent_id（用于匹配 SubagentStop）"@,
        TranslationKey::CliServerAbout => "启动 Codex OTel HTTP 接收服务器"@,
        TranslationKey::CliServerPortHelp => "监听端口（默认 4318）"@,
    }
}

/// The text in a language.
pub open spec fn translated(language: AppLanguage, key: TranslationKey) -> Seq<char> {
    match language {
        AppLanguage::English => english(key),
        AppLanguage::SimplifiedChinese => chinese(key),
    }
}

/// The text in a language.
pub fn translate(language: AppLanguage, key: TranslationKey) -> (r: &'static str)
    ensures
        r@ == translated(language, key),
{
    match language {
        AppLanguage::English => match key {
            TranslationKey::EventMonitor => "Event Monitor",
            TranslationKey::Quit => "Quit",
            TranslationKey::DisplayLocation => "Display Location",
            TranslationKey::Automatic => "Automatic",
            TranslationKey::OnlyOneDisplayDetected => "Only one display detected",
            TranslationKey::GuiWindowTitle => "VibeCat Event Monitor",
            TranslationKey::GuiFilterLabel => "Filter:",
            TranslationKey::GuiAutoScroll => "Auto-scroll",
            TranslationKey::GuiClear => "Clear",
            TranslationKey::GuiEventSingular => "event",
            TranslationKey::GuiEventPlural => "events",
            TranslationKey::GuiEventCountChineseUnit => "events",
            TranslationKey::CliInstallAbout => "Install hook configuration into settings.json",
            TranslationKey::CliInstallScopeHelp => "Installation scope: user (global) or project",
            TranslationKey::CliTailAbout => "Stream event logs in real time",
            TranslationKey::CliFilterHelp => "Filter by event type, for example PreToolUse or Stop",
            TranslationKey::CliStatusAbout => "Show a summary of recent event status",
            TranslationKey::CliGuiAbout => "Open a topmost window for event logs",
            TranslationKey::CliCatAbout => "Launch the desktop pet cat",
            TranslationKey::CliApproveAbout => "Handle PermissionRequest confirmation",
            TranslationKey::CliMiniCatAbout => "Launch a mini cat for subagent events and exit automatically",
            TranslationKey::CliMiniCatAgentIdHelp => "Subagent agent_id used to match SubagentStop",
            TranslationKey::CliServerAbout => "Start the Codex OTel HTTP receiver",
            TranslationKey::CliServerPortHelp => "Listening port, defaults to 4318",
        },
        AppLanguage::SimplifiedChinese => match key {
            TranslationKey::EventMonitor => "事件监控",
            TranslationKey::Quit => "退出",
            TranslationKey::DisplayLocation => "显示位置",
            TranslationKey::Automatic => "自动",
            TranslationKey::OnlyOneDisplayDetected => "当前仅检测到一个显示器",
            TranslationKey::GuiWindowTitle => "VibeCat 事件监控",
            TranslationKey::GuiFilterLabel => "筛选：",
            TranslationKey::GuiAutoScroll => "自动滚动",
            TranslationKey::GuiClear => "清空",
            TranslationKey::GuiEventSingular => "条事件",
            TranslationKey::GuiEventPlural => "条事件",
            TranslationKey::GuiEventCountChineseUnit => "条事件",
            TranslationKey::CliInstallAbout => "安装 hook 配置到 settings.json",
            TranslationKey::CliInstallScopeHelp => "安装范围：user（全局）或 project（项目级别）",
            TranslationKey::CliTailAbout => "实时查看事件日志（类似 tail -f）",
            TranslationKey::CliFilterHelp => "按事件类型过滤（如 PreToolUse、Stop 等）",
            TranslationKey::CliStatusAbout => "显示最近事件的状态摘要",
            TranslationKey::CliGuiAbout => "打开置顶窗口显示事件日志",
            TranslationKey::CliCatAbout => "启动桌面宠物猫",
            TranslationKey::CliApproveAbout => "处理 PermissionRequest 确认（被 hook 调用）",
            TranslationKey::CliMiniCatAbout => "启动迷你猫（被 subagent 触发，自动退出）",
            TranslationKey::CliMiniCatAgentIdHelp => "subagent 的 agent_id（用于匹配 SubagentStop）",
            TranslationKey::CliServerAbout => "启动 Codex OTel HTTP 接收服务器",
            TranslationKey::CliServerPortHelp => "监听端口（默认 4318）",
        },
    }
}

/// What the program is about: it watches an agent.
pub open spec fn app_about(language: AppLanguage, agent: Seq<char>) -> Seq<char> {
    match language {
        AppLanguage::English => "Passive hook event monitor for "@ + agent,
        AppLanguage::SimplifiedChinese => agent
            + " Hook 事件监听器 - 被动记录所有 hook 事件"@,
    }
}

/// What the listening command is about: an agent may call it.
pub open spec fn listen_about(language: AppLanguage, agent: Seq<char>) -> Seq<char> {
    match language {
        AppLanguage::English => "Listen for hook events from stdin"@,
        AppLanguage::SimplifiedChinese => "监听 hook 事件（被 "@ + agent
            + " 调用，从 stdin 读取 JSON）"@,
    }
}

/// The text on the program, with the name of the agent.
pub fn translate_app_about(language: AppLanguage, agent: &str) -> (r: String)
    ensures
        r@ == app_about(language, agent@),
{
    match language {
        AppLanguage::English => concat2("Passive hook event monitor for ", agent),
        AppLanguage::SimplifiedChinese => concat2(
            agent,
            " Hook 事件监听器 - 被动记录所有 hook 事件",
        ),
    }
}

/// The text on the listening command, with the name of the agent where the language has it.
pub fn translate_listen_about(language: AppLanguage, agent: &str) -> (r: String)
    ensures
        r@ == listen_about(language, agent@),
{
    match language {
        AppLanguage::English => "Listen for hook events from stdin".to_owned(),
        AppLanguage::SimplifiedChinese => concat3(
            "监听 hook 事件（被 ",
            agent,
            " 调用，从 stdin 读取 JSON）",
        ),
    }
}

/// The English label of an event type that has one.
pub open spec fn english_label(event_type: Seq<char>) -> Option<Seq<char>> {
    if event_type == "All"@ {
        Some("All"@)
    } else if event_type == "SessionStart"@ {
        Some("Session Start"@)
    } else if event_type == "SessionEnd"@ {
        Some("Session End"@)
    } else if event_type == "UserPromptSubmit"@ {
        Some("User Prompt Submit"@)
    } else if event_type == "InstructionsLoaded"@ {
        Some("Instructions Loaded"@)
    } else if event_type == "PreToolUse"@ {
        Some("Pre Tool Use"@)
    } else if event_type == "PostToolUse"@ {
        Some("Post Tool Use"@)
    } else if event_type == "PostToolUseFailure"@ {
        Some("Post Tool Use Failure"@)
    } else if event_type == "PermissionRequest"@ {
        Some("Permission Request"@)
    } else if event_type == "Notification"@ {
        Some("Notification"@)
    } else if event_type == "SubagentStart"@ {
        Some("Subagent Start"@)
    } else if event_type == "SubagentStop"@ {
        Some("Subagent Stop"@)
    } else if event_type == "Stop"@ {
        Some("Stop"@)
    } else if event_type == "TeammateIdle"@ {
        Some("Teammate Idle"@)
    } else if event_type == "TaskCompleted"@ {
        Some("Task Completed"@)
    } else if event_type == "ConfigChange"@ {
        Some("Config Change"@)
    } else if event_type == "WorktreeCreate"@ {
        Some("Worktree Create"@)
    } else if event_type == "WorktreeRemove"@ {
        Some("Worktree Remove"@)
    } else if event_type == "PreCompact"@ {
        Some("Pre Compact"@)
    } else if event_type == "api_request"@ {
        Some("CX API Request"@)
    } else if event_type == "tool_decision"@ {
        Some("CX Tool Decision"@)
    } else if event_type == "tool_result"@ {
        Some("CX Tool Result"@)
    } else if event_type == "sse_event"@ {
        Some("CX SSE Event"@)
    } else {
        None
    }
}

/// The label in simplified Chinese of an event type that has one.
pub open spec fn chinese_label(event_type: Seq<char>) -> Option<Seq<char>> {
    if event_type == "All"@ {
        Some("全部"@)
    } else if event_type == "SessionStart"@ {
        Some("会话开始"@)
    } else if event_type == "SessionEnd"@ {
        Some("会话结束"@)
    } else if event_type == "UserPromptSubmit"@ {
        Some("用户提交"@)
    } else if event_type == "InstructionsLoaded"@ {
        Some("指令加载"@)
    } else if event_type == "PreToolUse"@ {
        Some("工具调用前"@)
    } else if event_type == "PostToolUse"@ {
        Some("工具调用后"@)
    } else if event_type == "PostToolUseFailure"@ {
        Some("工具调用失败"@)
    } else if event_type == "PermissionRequest"@ {
        Some("权限请求"@)
    } else if event_type == "Notification"@ {
        Some("通知"@)
    } else if event_type == "SubagentStart"@ {
        Some("子代理启动"@)
    } else if event_type == "SubagentStop"@ {
        Some("子代理停止"@)
    } else if event_type == "Stop"@ {
        Some("停止"@)
    } else if event_type == "TeammateIdle"@ {
        Some("队友空闲"@)
    } else if event_type == "TaskCompleted"@ {
        Some("任务完成"@)
    } else if event_type == "ConfigChange"@ {
        Some("配置变更"@)
    } else if event_type == "WorktreeCreate"@ {
        Some("工作树创建"@)
    } else if event_type == "WorktreeRemove"@ {
        Some("工作树删除"@)
    } else if event_type == "PreCompact"@ {
        Some("压缩前"@)
    } else if event_type == "api_request"@ {
        Some("CX API请求"@)
    } else if event_type == "tool_decision"@ {
        Some("CX工具决策"@)
    } else if event_type == "tool_result"@ {
        Some("CX工具结果"@)
    } else if event_type == "sse_event"@ {
        Some("CX SSE事件"@)
    } else {
        None
    }
}

/// The label of an event type; one without a label is shown as it is.
pub open spec fn label_of(language: AppLanguage, event_type: Seq<char>) -> Seq<char> {
    match language {
        AppLanguage::English => text::text_or(english_label(event_type), event_type),
        AppLanguage::SimplifiedChinese => text::text_or(chinese_label(event_type), event_type),
    }
}

fn find_english_label(event_type: &str) -> (r: Option<&'static str>)
    ensures
        text::text_view(r) == english_label(event_type@),
{
    if same_text(event_type, "All") {
        Some("All")
    } else if same_text(event_type, "SessionStart") {
        Some("Session Start")
    } else if same_text(event_type, "SessionEnd") {
        Some("Session End")
    } else if same_text(event_type, "UserPromptSubmit") {
        Some("User Prompt Submit")
    } else if same_text(event_type, "InstructionsLoaded") {
        Some("Instructions Loaded")
    } else if same_text(event_type, "PreToolUse") {
        Some("Pre Tool Use")
    } else if same_text(event_type, "PostToolUse") {
        Some("Post Tool Use")
    } else if same_text(event_type, "PostToolUseFailure") {
        Some("Post Tool Use Failure")
    } else if same_text(event_type, "PermissionRequest") {
        Some("Permission Request")
    } else if same_text(event_type, "Notification") {
        Some("Notification")
    } else if same_text(event_type, "SubagentStart") {
        Some("Subagent Start")
    } else if same_text(event_type, "SubagentStop") {
        Some("Subagent Stop")
    } else if same_text(event_type, "Stop") {
        Some("Stop")
    } else if same_text(event_type, "TeammateIdle") {
        Some("Teammate Idle")
    } else if same_text(event_type, "TaskCompleted") {
        Some("Task Completed")
    } else if same_text(event_type, "ConfigChange") {
        Some("Config Change")
    } else if same_text(event_type, "WorktreeCreate") {
        Some("Worktree Create")
    } else if same_text(event_type, "WorktreeRemove") {
        Some("Worktree Remove")
    } else if same_text(event_type, "PreCompact") {
        Some("Pre Compact")
    } else if same_text(event_type, "api_request") {
        Some("CX API Request")
    } else if same_text(event_type, "tool_decision") {
        Some("CX Tool Decision")
    } else if same_text(event_type, "tool_result") {
        Some("CX Tool Result")
    } else if same_text(event_type, "sse_event") {
        Some("CX SSE Event")
    } else {
        None
    }
}

fn find_chinese_label(event_type: &str) -> (r: Option<&'static str>)
    ensures
        text::text_view(r) == chinese_label(event_type@),
{
    if same_text(event_type, "All") {
        Some("全部")
    } else if same_text(event_type, "SessionStart") {
        Some("会话开始")
    } else if same_text(event_type, "SessionEnd") {
        Some("会话结束")
    } else if same_text(event_type, "UserPromptSubmit") {
        Some("用户提交")
    } else if same_text(event_type, "InstructionsLoaded") {
        Some("指令加载")
    } else if same_text(event_type, "PreToolUse") {
        Some("工具调用前")
    } else if same_text(event_type, "PostToolUse") {
        Some("工具调用后")
    } else if same_text(event_type, "PostToolUseFailure") {
        Some("工具调用失败")
    } else if same_text(event_type, "PermissionRequest") {
        Some("权限请求")
    } else if same_text(event_type, "Notification") {
        Some("通知")
    } else if same_text(event_type, "SubagentStart") {
        Some("子代理启动")
    } else if same_text(event_type, "SubagentStop") {
        Some("子代理停止")
    } else if same_text(event_type, "Stop") {
        Some("停止")
    } else if same_text(event_type, "TeammateIdle") {
        Some("队友空闲")
    } else if same_text(event_type, "TaskCompleted") {
        Some("任务完成")
    } else if same_text(event_type, "ConfigChange") {
        Some("配置变更")
    } else if same_text(event_type, "WorktreeCreate") {
        Some("工作树创建")
    } else if same_text(event_type, "WorktreeRemove") {
        Some("工作树删除")
    } else if same_text(event_type, "PreCompact") {
        Some("压缩前")
    } else if same_text(event_type, "api_request") {
        Some("CX API请求")
    } else if same_text(event_type, "tool_decision") {
        Some("CX工具决策")
    } else if same_text(event_type, "tool_result") {
        Some("CX工具结果")
    } else if same_text(event_type, "sse_event") {
        Some("CX SSE事件")
    } else {
        None
    }
}

/// The label of an event type.
pub fn event_type_label(language: AppLanguage, event_type: &str) -> (r: String)
    ensures
        r@ == label_of(language, event_type@),
{
    let label = match language {
        AppLanguage::English => find_english_label(event_type),
        AppLanguage::SimplifiedChinese => find_chinese_label(event_type),
    };
    match label {
        Some(known) => known.to_owned(),
        None => event_type.to_owned(),
    }
}

/// An event type has a label in both languages or in none, and without one it is shown as it is.
pub proof fn law_labels_in_both_languages(event_type: Seq<char>)
    ensures
        english_label(event_type) is Some <==> chinese_label(event_type) is Some,
        english_label(event_type) is None ==> label_of(AppLanguage::English, event_type)
            == event_type && label_of(AppLanguage::SimplifiedChinese, event_type) == event_type,
{
}

/// How many events there are, in words.
pub open spec fn event_count(language: AppLanguage, count: nat) -> Seq<char> {
    text::decimal(count) + " "@ + (match language {
        AppLanguage::English => if count == 1 {
            english(TranslationKey::GuiEventSingular)
        } else {
            english(TranslationKey::GuiEventPlural)
        },
        AppLanguage::SimplifiedChinese => chinese(TranslationKey::GuiEventCountChineseUnit),
    })
}

/// How many events there are, in words.
pub fn format_event_count(language: AppLanguage, count: usize) -> (r: String)
    ensures
        r@ == event_count(language, count as nat),
{
    let key = match language {
        AppLanguage::English => {
            if count == 1 {
                TranslationKey::GuiEventSingular
            } else {
                TranslationKey::GuiEventPlural
            }
        },
        AppLanguage::SimplifiedChinese => TranslationKey::GuiEventCountChineseUnit,
    };
    concat3(text::decimal_text(count as u64).as_str(), " ", translate(language, key))
}

// ---------------------------------------------------------------------------
// Laws
// ---------------------------------------------------------------------------

/// A locale is taken for Chinese by its first two letters, in either case; blanks around it do not
/// matter.
pub proof fn law_locale_by_its_first_letters(
    before: Seq<char>,
    locale: Seq<char>,
    after: Seq<char>,
)
    requires
        forall|i: int| 0 <= i < before.len() ==> text::is_whitespace(#[trigger] before[i]),
        forall|i: int| 0 <= i < after.len() ==> text::is_whitespace(#[trigger] after[i]),
        locale.len() > 0 ==> !text::is_whitespace(locale[0]) && !text::is_whitespace(locale.last()),
    ensures
        locale_language(before + locale + after) == AppLanguage::SimplifiedChinese <==> locale.len()
            >= 2 && (locale[0] == 'z' || locale[0] == 'Z') && (locale[1] == 'h' || locale[1]
            == 'H'),
{
    text::law_trimming_leaves_the_inside(before, locale, after);
}

/// The values that a choice is stored as; any other value is no choice.
pub proof fn law_stored_values(value: u8)
    ensures
        storage_value(AppLanguage::English) == 1,
        storage_value(AppLanguage::SimplifiedChinese) == 2,
        LANGUAGE_OVERRIDE_AUTO == 0,
        stored_language(value) is None <==> value != 1 && value != 2,
        stored_language(1) == Some(AppLanguage::English),
        stored_language(2) == Some(AppLanguage::SimplifiedChinese),
{
}

/// Without a choice the locale decides, and without a locale the language is English.
pub proof fn law_locale_decides_without_a_choice(locale: Seq<char>, language: AppLanguage)
    ensures
        resolved_language(None, None) == AppLanguage::English,
        resolved_language(Some(locale), None) == locale_language(locale),
        resolved_language(Some(locale), Some(language)) == language,
        resolved_language(None, Some(language)) == language,
{
}

/// Of what the environment says only the part before the first dot counts, without blanks around
/// it, and only if anything is left.
pub proof fn law_environment_locale(name: Seq<char>, encoding: Seq<char>)
    requires
        forall|i: int| 0 <= i < name.len() ==> #[trigger] name[i] != '.',
        name.len() > 0 ==> !text::is_whitespace(name[0]) && !text::is_whitespace(name.last()),
    ensures
        name.len() > 0 ==> env_locale(name) == Some(name),
        name.len() > 0 ==> env_locale(name + seq!['.'] + encoding) == Some(name),
        name.len() == 0 ==> env_locale(name) is None,
        name.len() == 0 ==> env_locale(name + seq!['.'] + encoding) is None,
{
    text::law_trimmed_text_stays(name);
    text::law_parts_of_a_text(name, '.', encoding);
}

/// The system's own locale comes first, then `LC_ALL`, then `LANG`; a variable that is set decides
/// even where it names no locale.
pub proof fn law_locale_sources(
    preferred: Seq<char>,
    lc_all: Seq<char>,
    lang: Option<Seq<char>>,
    other: Option<Seq<char>>,
)
    ensures
        system_locale(Some(preferred), other, lang) == Some(preferred),
        system_locale(None, Some(lc_all), lang) == env_locale(lc_all),
        system_locale(None, None, lang) == (if lang is Some {
            env_locale(lang->0)
        } else {
            None
        }),
        system_locale(None, other, lang) == environment_locale(other, lang),
{
}

/// The texts of the menu.
pub proof fn law_menu_texts()
    ensures
        translated(AppLanguage::English, TranslationKey::EventMonitor) == "Event Monitor"@,
        translated(AppLanguage::English, TranslationKey::Quit) == "Quit"@,
        translated(AppLanguage::English, TranslationKey::DisplayLocation) == "Display Location"@,
        translated(AppLanguage::English, TranslationKey::Automatic) == "Automatic"@,
        translated(AppLanguage::English, TranslationKey::OnlyOneDisplayDetected)
            == "Only one display detected"@,
        translated(AppLanguage::SimplifiedChinese, TranslationKey::EventMonitor) == "事件监控"@,
        translated(AppLanguage::SimplifiedChinese, TranslationKey::Quit) == "退出"@,
        translated(AppLanguage::SimplifiedChinese, TranslationKey::DisplayLocation) == "显示位置"@,
        translated(AppLanguage::SimplifiedChinese, TranslationKey::Automatic) == "自动"@,
        translated(AppLanguage::SimplifiedChinese, TranslationKey::OnlyOneDisplayDetected)
            == "当前仅检测到一个显示器"@,
{
}

/// The texts of the monitor window.
pub proof fn law_window_texts()
    ensures
        translated(AppLanguage::English, TranslationKey::GuiWindowTitle) == "VibeCat Event Monitor"@,
        translated(AppLanguage::English, TranslationKey::GuiFilterLabel) == "Filter:"@,
        translated(AppLanguage::English, TranslationKey::GuiAutoScroll) == "Auto-scroll"@,
        translated(AppLanguage::English, TranslationKey::GuiClear) == "Clear"@,
        translated(AppLanguage::SimplifiedChinese, TranslationKey::GuiWindowTitle)
            == "VibeCat 事件监控"@,
        translated(AppLanguage::SimplifiedChinese, TranslationKey::GuiFilterLabel) == "筛选："@,
        translated(AppLanguage::SimplifiedChinese, TranslationKey::GuiAutoScroll) == "自动滚动"@,
        translated(AppLanguage::SimplifiedChinese, TranslationKey::GuiClear) == "清空"@,
{
}

/// The English texts on the commands and their arguments.
pub proof fn law_english_command_texts(key: TranslationKey)
    ensures
        ({
            let says = translated(AppLanguage::English, key);
            &&& key == TranslationKey::CliInstallAbout ==> says
                == "Install hook configuration into settings.json"@
            &&& key == TranslationKey::CliInstallScopeHelp ==> says
                == "Installation scope: user (global) or project"@
            &&& key == TranslationKey::CliTailAbout ==> says == "Stream event logs in real time"@
            &&& key == TranslationKey::CliFilterHelp ==> says
                == "Filter by event type, for example PreToolUse or Stop"@
            &&& key == TranslationKey::CliStatusAbout ==> says
                == "Show a summary of recent event status"@
            &&& key == TranslationKey::CliGuiAbout ==> says
                == "Open a topmost window for event logs"@
            &&& key == TranslationKey::CliCatAbout ==> says == "Launch the desktop pet cat"@
            &&& key == TranslationKey::CliApproveAbout ==> says
                == "Handle PermissionRequest confirmation"@
            &&& key == TranslationKey::CliMiniCatAbout ==> says
                == "Launch a mini cat for subagent events and exit automatically"@
            &&& key == TranslationKey::CliMiniCatAgentIdHelp ==> says
                == "Subagent agent_id used to match SubagentStop"@
            &&& key == TranslationKey::CliServerAbout ==> says
                == "Start the Codex OTel HTTP receiver"@
            &&& key == TranslationKey::CliServerPortHelp ==> says
                == "Listening port, defaults to 4318"@
        }),
{
}

/// The Chinese texts on the commands and their arguments.
pub proof fn law_chinese_command_texts(key: TranslationKey)
    ensures
        ({
            let says = translated(AppLanguage::SimplifiedChinese, key);
            &&& key == TranslationKey::CliInstallAbout ==> says
                == "安装 hook 配置到 settings.json"@
            &&& key == TranslationKey::CliInstallScopeHelp ==> says
                == "安装范围：user（全局）或 project（项目级别）"@
            &&& key == TranslationKey::CliTailAbout ==> says
                == "实时查看事件日志（类似 tail -f）"@
            &&& key == TranslationKey::CliFilterHelp ==> says
                == "按事件类型过滤（如 PreToolUse、Stop 等）"@
            &&& key == TranslationKey::CliStatusAbout ==> says == "显示最近事件的状态摘要"@
            &&& key == TranslationKey::CliGuiAbout ==> says == "打开置顶窗口显示事件日志"@
            &&& key == TranslationKey::CliCatAbout ==> says == "启动桌面宠物猫"@
            &&& key == TranslationKey::CliApproveAbout ==> says
                == "处理 PermissionRequest 确认（被 hook 调用）"@
            &&& key == TranslationKey::CliMiniCatAbout ==> says
                == "启动迷你猫（被 subagent 触发，自动退出）"@
            &&& key == TranslationKey::CliMiniCatAgentIdHelp ==> says
                == "subagent 的 agent_id（用于匹配 SubagentStop）"@
            &&& key == TranslationKey::CliServerAbout ==> says
                == "启动 Codex OTel HTTP 接收服务器"@
            &&& key == TranslationKey::CliServerPortHelp ==> says == "监听端口（默认 4318）"@
        }),
{
}

/// The texts on the program and its listening command name the agent, where they name one, as it
/// is given.
pub proof fn law_agent_is_named(agent: Seq<char>)
    ensures
        app_about(AppLanguage::English, agent) == "Passive hook event monitor for "@ + agent,
        app_about(AppLanguage::SimplifiedChinese, agent) == agent
            + " Hook 事件监听器 - 被动记录所有 hook 事件"@,
        listen_about(AppLanguage::English, agent) == "Listen for hook events from stdin"@,
        listen_about(AppLanguage::SimplifiedChinese, agent) == "监听 hook 事件（被 "@ + agent
            + " 调用，从 stdin 读取 JSON）"@,
{
}

/// The label of each event of the hooks.
pub proof fn law_labels_of_events(event: HookEvent)
    ensures
        label_of(AppLanguage::English, events::event_name(event)) == (match event {
            HookEvent::SessionStart(_) => "Session Start"@,
            HookEvent::SessionEnd(_) => "Session End"@,
            HookEvent::UserPromptSubmit(_) => "User Prompt Submit"@,
            HookEvent::InstructionsLoaded(_) => "Instructions Loaded"@,
            HookEvent::PreToolUse(_) => "Pre Tool Use"@,
            HookEvent::PostToolUse(_) => "Post Tool Use"@,
            HookEvent::PostToolUseFailure(_) => "Post Tool Use Failure"@,
            HookEvent::PermissionRequest(_) => "Permission Request"@,
            HookEvent::Notification(_) => "Notification"@,
            HookEvent::SubagentStart(_) => "Subagent Start"@,
            HookEvent::SubagentStop(_) => "Subagent Stop"@,
            HookEvent::Stop(_) => "Stop"@,
            HookEvent::TeammateIdle(_) => "Teammate Idle"@,
            HookEvent::TaskCompleted(_) => "Task Completed"@,
            HookEvent::ConfigChange(_) => "Config Change"@,
            HookEvent::WorktreeCreate(_) => "Worktree Create"@,
            HookEvent::WorktreeRemove(_) => "Worktree Remove"@,
            HookEvent::PreCompact(_) => "Pre Compact"@,
        }),
        label_of(AppLanguage::SimplifiedChinese, events::event_name(event)) == (match event {
            HookEvent::SessionStart(_) => "会话开始"@,
            HookEvent::SessionEnd(_) => "会话结束"@,
            HookEvent::UserPromptSubmit(_) => "用户提交"@,
            HookEvent::InstructionsLoaded(_) => "指令加载"@,
            HookEvent::PreToolUse(_) => "工具调用前"@,
            HookEvent::PostToolUse(_) => "工具调用后"@,
            HookEvent::PostToolUseFailure(_) => "工具调用失败"@,
            HookEvent::PermissionRequest(_) => "权限请求"@,
            HookEvent::Notification(_) => "通知"@,
            HookEvent::SubagentStart(_) => "子代理启动"@,
            HookEvent::SubagentStop(_) => "子代理停止"@,
            HookEvent::Stop(_) => "停止"@,
            HookEvent::TeammateIdle(_) => "队友空闲"@,
            HookEvent::TaskCompleted(_) => "任务完成"@,
            HookEvent::ConfigChange(_) => "配置变更"@,
            HookEvent::WorktreeCreate(_) => "工作树创建"@,
            HookEvent::WorktreeRemove(_) => "工作树删除"@,
            HookEvent::PreCompact(_) => "压缩前"@,
        }),
{
    events::lemma_type_names();
}

/// The labels of the telemetry's types and of all types together; no other type has one.
pub proof fn law_other_labels(t: Seq<char>)
    ensures
        label_of(AppLanguage::English, "All"@) == "All"@,
        label_of(AppLanguage::English, "api_request"@) == "CX API Request"@,
        label_of(AppLanguage::English, "tool_decision"@) == "CX Tool Decision"@,
        label_of(AppLanguage::English, "tool_result"@) == "CX Tool Result"@,
        label_of(AppLanguage::English, "sse_event"@) == "CX SSE Event"@,
        label_of(AppLanguage::SimplifiedChinese, "All"@) == "全部"@,
        label_of(AppLanguage::SimplifiedChinese, "api_request"@) == "CX API请求"@,
        label_of(AppLanguage::SimplifiedChinese, "tool_decision"@) == "CX工具决策"@,
        label_of(AppLanguage::SimplifiedChinese, "tool_result"@) == "CX工具结果"@,
        label_of(AppLanguage::SimplifiedChinese, "sse_event"@) == "CX SSE事件"@,
        !gui::choices().contains(t) ==> label_of(AppLanguage::English, t) == t && label_of(
            AppLanguage::SimplifiedChinese,
            t,
        ) == t,
{
    events::lemma_type_names();
    gui::lemma_choices();
}

/// One event is told in the singular and any other number in the plural; in Chinese there is no
/// difference. The number comes first.
pub proof fn law_events_are_counted_in_words(count: nat)
    ensures
        event_count(AppLanguage::English, 1) == text::decimal(1) + " "@ + "event"@,
        count != 1 ==> event_count(AppLanguage::English, count) == text::decimal(count) + " "@
            + "events"@,
        event_count(AppLanguage::SimplifiedChinese, count) == text::decimal(count) + " "@
            + "条事件"@,
{
}

} // verus!
