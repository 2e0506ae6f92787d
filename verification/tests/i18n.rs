use vibe_cat::i18n::{
    current_language, detect_env_locale_identifier, detect_system_locale_identifier,
    event_type_label, format_event_count, language_override, resolve_language,
    set_language_override, translate, AppLanguage, LanguageOverride, TranslationKey,
};

#[test]
fn locale_parser_defaults_to_english_for_non_chinese_locale() {
    assert_eq!(resolve_language(Some("en-US"), None), AppLanguage::English);
}

#[test]
fn locale_parser_maps_chinese_variants_to_simplified_chinese() {
    assert_eq!(
        resolve_language(Some("zh-Hans"), None),
        AppLanguage::SimplifiedChinese
    );
    assert_eq!(
        resolve_language(Some("zh-CN"), None),
        AppLanguage::SimplifiedChinese
    );
}

#[test]
fn resolved_language_prefers_manual_override_over_detected_locale() {
    assert_eq!(
        resolve_language(Some("zh-CN"), Some(AppLanguage::English)),
        AppLanguage::English
    );
}

#[test]
fn resolve_from_missing_locale_falls_back_to_english() {
    assert_eq!(resolve_language(None, None), AppLanguage::English);
}

#[test]
fn translate_returns_expected_labels_for_tray_keys() {
    assert_eq!(
        translate(AppLanguage::English, TranslationKey::EventMonitor),
        "Event Monitor"
    );
    assert_eq!(
        translate(AppLanguage::SimplifiedChinese, TranslationKey::EventMonitor),
        "事件监控"
    );
    assert_eq!(
        translate(AppLanguage::English, TranslationKey::Quit),
        "Quit"
    );
    assert_eq!(
        translate(AppLanguage::SimplifiedChinese, TranslationKey::Quit),
        "退出"
    );
}

#[test]
fn translate_returns_expected_labels_for_gui_keys() {
    assert_eq!(
        translate(AppLanguage::English, TranslationKey::GuiWindowTitle),
        "VibeCat Event Monitor"
    );
    assert_eq!(
        translate(
            AppLanguage::SimplifiedChinese,
            TranslationKey::GuiWindowTitle
        ),
        "VibeCat 事件监控"
    );
    assert_eq!(
        translate(AppLanguage::English, TranslationKey::GuiFilterLabel),
        "Filter:"
    );
    assert_eq!(
        translate(
            AppLanguage::SimplifiedChinese,
            TranslationKey::GuiFilterLabel
        ),
        "筛选："
    );
    assert_eq!(
        translate(AppLanguage::English, TranslationKey::GuiAutoScroll),
        "Auto-scroll"
    );
    assert_eq!(
        translate(AppLanguage::SimplifiedChinese, TranslationKey::GuiAutoScroll),
        "自动滚动"
    );
    assert_eq!(
        translate(AppLanguage::English, TranslationKey::GuiClear),
        "Clear"
    );
    assert_eq!(
        translate(AppLanguage::SimplifiedChinese, TranslationKey::GuiClear),
        "清空"
    );
}

#[test]
fn event_type_labels_follow_language() {
    assert_eq!(
        event_type_label(AppLanguage::English, "PermissionRequest"),
        "Permission Request"
    );
    assert_eq!(
        event_type_label(AppLanguage::SimplifiedChinese, "PermissionRequest"),
        "权限请求"
    );
    assert_eq!(event_type_label(AppLanguage::English, "unknown"), "unknown");
}

#[test]
fn format_event_count_uses_language_specific_copy() {
    assert_eq!(format_event_count(AppLanguage::English, 1), "1 event");
    assert_eq!(format_event_count(AppLanguage::English, 3), "3 events");
    assert_eq!(
        format_event_count(AppLanguage::SimplifiedChinese, 3),
        "3 条事件"
    );
}

#[test]
fn chosen_language_is_stored_and_read_back() {
    for language in [AppLanguage::English, AppLanguage::SimplifiedChinese] {
        assert_eq!(
            AppLanguage::from_storage_value(language.to_storage_value()),
            Some(language)
        );
        let mut chosen = LanguageOverride::new();
        assert_eq!(language_override(&chosen), None);
        set_language_override(&mut chosen, Some(language));
        assert_eq!(language_override(&chosen), Some(language));
        assert_eq!(current_language(&chosen, Some("zh-CN")), language);
        set_language_override(&mut chosen, None);
        assert_eq!(
            current_language(&chosen, Some("zh-CN")),
            AppLanguage::SimplifiedChinese
        );
    }
    assert_eq!(AppLanguage::from_storage_value(0), None);
    assert_eq!(AppLanguage::from_storage_value(9), None);
}

#[test]
fn environment_locale_loses_its_encoding() {
    assert_eq!(
        detect_env_locale_identifier(Some("zh_CN.UTF-8"), Some("en_US")),
        Some("zh_CN".to_string())
    );
    assert_eq!(
        detect_env_locale_identifier(None, Some("en_US.UTF-8")),
        Some("en_US".to_string())
    );
    assert_eq!(detect_env_locale_identifier(None, None), None);
    assert_eq!(
        detect_system_locale_identifier(Some("zh-Hans-CN".to_string()), Some("en_US"), None),
        Some("zh-Hans-CN".to_string())
    );
    assert_eq!(
        detect_system_locale_identifier(None, None, Some("fr_FR")),
        Some("fr_FR".to_string())
    );
}
