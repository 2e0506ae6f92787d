use vibe_cat::cat::ClaudeState;
use vibe_cat::cat_layout::Rect;
use vibe_cat::display::{
    build_floor_mode_sample, DisplayChoice, DisplayLocationMode, MacScreenSnapshot,
};
use vibe_cat::i18n::{AppLanguage, TranslationKey};
use vibe_cat::sprite::{crop_frame, cut_out, decode_sprite, encode_png, enlarge, find_bounds, Sprite};
use vibe_cat::tray::{
    advance_tray_animation, advance_tray_animation_at, current_display_location_mode,
    display_location_revision, draw_tray_frame, extract_tray_frame_as_png, extract_tray_icon,
    localized_menu_title, menu_title, normalized_display_location_mode, precompute_tray_frames,
    refresh_display_location_menu, sample_for_display_location, set_display_location_mode,
    should_show_display_location_menu, sync_tray_state, sync_tray_state_at, tray_clicked,
    tray_menu, tray_utility_menu_order, weighted_anim_at, weighted_random_anim, DisplayLocation,
    DisplayMenuLine, DisplayMenuState, TrayAnimState, TrayClick, TrayMenuLine, TrayState,
    TrayUtilityMenuItem, ANIM_SLEEP, ANIM_STRETCH,
};

#[test]
fn display_location_menu_visibility_should_stay_enabled_after_multidisplay_seen() {
    assert!(!should_show_display_location_menu(false, 1));
    assert!(should_show_display_location_menu(false, 2));
    assert!(should_show_display_location_menu(true, 1));
}

#[test]
fn tray_utility_menu_order_should_place_display_location_next_to_event_monitor() {
    assert_eq!(
        tray_utility_menu_order(),
        [
            TrayUtilityMenuItem::DisplayLocation,
            TrayUtilityMenuItem::EventMonitor,
        ]
    );
}

#[test]
fn icon_sleeps_wakes_with_two_stretches_and_sleeps_again() {
    let mut state = TrayAnimState::new_at(1000);
    assert_eq!(state.state, TrayState::Sleeping);
    assert_eq!(state.current_anim, ANIM_SLEEP);
    sync_tray_state_at(&mut state, ClaudeState::Offline, 1001);
    assert_eq!(state.state, TrayState::Sleeping);
    sync_tray_state_at(&mut state, ClaudeState::Idle, 2000);
    assert_eq!(state.state, TrayState::Waking);
    assert_eq!(state.current_anim, ANIM_STRETCH);
    for _ in 0..15 {
        advance_tray_animation_at(&mut state, 3000);
        assert_eq!(state.state, TrayState::Waking);
    }
    advance_tray_animation_at(&mut state, 3000);
    assert_eq!(state.state, TrayState::Active);
    assert_eq!(state.current_anim, 0);
    assert_eq!(state.current_anim_duration, 15000);
    sync_tray_state_at(&mut state, ClaudeState::Active, 17999);
    assert_eq!(state.current_anim, 0);
    sync_tray_state_at(&mut state, ClaudeState::Active, 18001);
    assert_eq!(state.anim_start_ms, 18001);
    assert_eq!(state.current_anim, 2);
    sync_tray_state_at(&mut state, ClaudeState::Offline, 18002);
    assert_eq!(state.state, TrayState::Sleeping);
}

#[test]
fn icon_follows_the_real_clock() {
    let mut state = TrayAnimState::new();
    assert!(state.anim_start_ms > 1_600_000_000_000);
    advance_tray_animation(&mut state);
    assert_eq!(state.frame_index, 1);
    sync_tray_state(&mut state, ClaudeState::Active);
    assert_eq!(state.state, TrayState::Waking);
    assert_eq!(state.frame_index, 0);
}

#[test]
fn another_animation_follows() {
    assert_eq!(weighted_anim_at(0, 0), (1, 15000));
    assert_eq!(weighted_anim_at(0, 1), (2, 15000));
    assert_eq!(weighted_anim_at(0, 5), (3, 15000));
    assert_eq!(weighted_anim_at(6, 7), (3, 15000));
    for current in 0..4 {
        assert_ne!(weighted_random_anim(current).0, current);
    }
}

fn choice(id: &str, label: &str, is_main: bool) -> DisplayChoice {
    DisplayChoice {
        selection_id: id.to_string(),
        label: label.to_string(),
        is_main,
    }
}

#[test]
fn only_a_change_of_the_display_counts() {
    let mut location = DisplayLocation::new();
    assert_eq!(display_location_revision(&location), 0);
    set_display_location_mode(&mut location, DisplayLocationMode::Auto);
    assert_eq!(display_location_revision(&location), 0);
    set_display_location_mode(&mut location, DisplayLocationMode::Specific("a".to_string()));
    assert_eq!(display_location_revision(&location), 1);
    set_display_location_mode(&mut location, DisplayLocationMode::Specific("a".to_string()));
    assert_eq!(display_location_revision(&location), 1);
    let kept = normalized_display_location_mode(&mut location, &vec![choice("a", "A", true)]);
    assert_eq!(kept, DisplayLocationMode::Specific("a".to_string()));
    let lost = normalized_display_location_mode(&mut location, &vec![choice("b", "B", true)]);
    assert_eq!(lost, DisplayLocationMode::Auto);
    assert_eq!(display_location_revision(&location), 2);
    assert_eq!(current_display_location_mode(&location), DisplayLocationMode::Auto);
}

#[test]
fn display_menu_appears_with_a_second_display_and_stays() {
    let mut state = DisplayMenuState {
        activated: false,
        location: DisplayLocation::new(),
    };
    let one = vec![choice("a", "A", true)];
    let two = vec![choice("a", "A", true), choice("b", "B", false)];
    assert!(refresh_display_location_menu(&mut state, &one).is_none());
    let lines = refresh_display_location_menu(&mut state, &two).unwrap();
    assert_eq!(lines.len(), 4);
    assert!(matches!(lines[0], DisplayMenuLine::Automatic { checked: true }));
    assert!(matches!(lines[1], DisplayMenuLine::Separator));
    set_display_location_mode(
        &mut state.location,
        DisplayLocationMode::Specific("b".to_string()),
    );
    let lines = refresh_display_location_menu(&mut state, &two).unwrap();
    assert!(matches!(lines[0], DisplayMenuLine::Automatic { checked: false }));
    match &lines[3] {
        DisplayMenuLine::Display {
            label,
            selection_id,
            checked,
        } => {
            assert_eq!(label, "B");
            assert_eq!(selection_id, "b");
            assert!(*checked);
        }
        _ => panic!("the last line is a display"),
    }
    let lines = refresh_display_location_menu(&mut state, &one).unwrap();
    assert_eq!(lines.len(), 2);
    assert!(matches!(lines[0], DisplayMenuLine::Automatic { checked: true }));
    assert!(matches!(lines[1], DisplayMenuLine::OnlyOneDisplay));
}

fn screen(id: &str) -> MacScreenSnapshot<i32> {
    MacScreenSnapshot {
        id: id.to_string(),
        selection_id: format!("selection-{}", id),
        name: id.to_string(),
        frame: Rect::new(0, 0, 100, 50),
        visible_frame: Rect::new(0, 5, 100, 45),
        scale_factor: 1,
        is_main: id == "main",
        scale_bits: 1,
        left_inset_bits: 0,
        right_inset_bits: 0,
    }
}

#[test]
fn sample_follows_the_choice_and_gives_up_a_lost_one() {
    let screens = vec![screen("main"), screen("other")];
    let auto = build_floor_mode_sample(&screens[0], true);
    let mut location = DisplayLocation::new();
    set_display_location_mode(
        &mut location,
        DisplayLocationMode::Specific("selection-other".to_string()),
    );
    let sample = sample_for_display_location(&mut location, &screens, &auto);
    assert_eq!(sample.dock_snapshot.anchor_screen_id, "other");
    assert_eq!(location.revision, 1);
    let rest = vec![screen("main")];
    let sample = sample_for_display_location(&mut location, &rest, &auto);
    assert_eq!(sample.dock_snapshot.anchor_screen_id, "main");
    assert_eq!(location.mode, DisplayLocationMode::Auto);
    assert_eq!(location.revision, 2);
}

#[test]
fn menu_has_its_lines_and_titles() {
    let lines = tray_menu();
    assert_eq!(
        lines,
        vec![
            TrayMenuLine::ToggleCc,
            TrayMenuLine::ToggleCx,
            TrayMenuLine::Separator,
            TrayMenuLine::DisplayLocation,
            TrayMenuLine::EventMonitor,
            TrayMenuLine::Separator,
            TrayMenuLine::Quit,
        ]
    );
    let english = AppLanguage::English;
    let agent = "Some Agent";
    assert_eq!(menu_title(english, TrayMenuLine::ToggleCc, agent), Some("Some Agent"));
    assert_eq!(menu_title(english, TrayMenuLine::ToggleCx, agent), Some("Codex"));
    assert_eq!(menu_title(english, TrayMenuLine::Separator, agent), None);
    assert_eq!(menu_title(english, TrayMenuLine::Quit, agent), Some("Quit"));
    assert_eq!(
        localized_menu_title(AppLanguage::SimplifiedChinese, TranslationKey::Quit),
        "退出"
    );
}

#[test]
fn right_button_opens_the_menu() {
    assert_eq!(tray_clicked(3, true), TrayClick::OpenMenu);
    assert_eq!(tray_clicked(4, false), TrayClick::OpenMenu);
    assert_eq!(tray_clicked(1, true), TrayClick::Hide);
    assert_eq!(tray_clicked(1, false), TrayClick::Show);
}

/// A sheet in which every pixel is of its own colour.
fn sheet() -> Sprite {
    let mut rgba: Vec<u8> = Vec::new();
    for y in 0..320u32 {
        for x in 0..256u32 {
            rgba.extend_from_slice(&[x as u8, (y % 256) as u8, (y / 256) as u8, 255]);
        }
    }
    Sprite {
        width: 256,
        height: 320,
        rgba,
    }
}

#[test]
fn tray_frame_is_enlarged_onto_the_floor() {
    let sheet = sheet();
    let icon = draw_tray_frame(&sheet, 0, 1);
    assert_eq!(icon.len(), 68 * 44 * 4);
    // Twelve pixels are centred in seventeen: ten pixels of the icon stay clear at the left.
    assert_eq!(&icon[9 * 4..10 * 4], &[0, 0, 0, 0]);
    assert_eq!(&icon[10 * 4..11 * 4], &[32 + 9, 20, 0, 255]);
    assert_eq!(&icon[13 * 4..14 * 4], &[32 + 9, 20, 0, 255]);
    assert_eq!(&icon[14 * 4..15 * 4], &[32 + 10, 20, 0, 255]);
    // The sleeping cat is eight pixels high and lies on the floor.
    let asleep = draw_tray_frame(&sheet, 6, 0);
    assert_eq!(&asleep[(11 * 68 + 30) * 4..(11 * 68 + 31) * 4], &[0, 0, 0, 0]);
    assert_eq!(asleep[(12 * 68 + 30) * 4 + 3], 255);
}

#[test]
fn tray_frames_are_png_files_of_the_icon() {
    let sheet = sheet();
    let png = extract_tray_frame_as_png(&sheet, 4, 7).unwrap();
    let back = decode_sprite(&png).unwrap();
    assert_eq!((back.width, back.height), (68, 44));
    assert_eq!(back.rgba, draw_tray_frame(&sheet, 4, 7));
    let all = precompute_tray_frames(&sheet).unwrap();
    let counts: Vec<usize> = all.iter().map(|frames| frames.len()).collect();
    assert_eq!(counts, vec![4, 4, 4, 4, 8, 8, 4, 6, 7, 8]);
    assert_eq!(all[4][7], png);
}

#[test]
fn windows_icon_is_the_middle_of_a_cell() {
    let icon = extract_tray_icon(&sheet(), 1, 2);
    assert_eq!(icon.len(), 32 * 32 * 4);
    assert_eq!(&icon[0..4], &[64 + 9, 32 + 20, 0, 255]);
    assert_eq!(&icon[icon.len() - 4..], &[64 + 20, 32 + 31, 0, 255]);
}

#[test]
fn windows_icon_is_what_the_sheet_has_of_a_cell() {
    let small = Sprite {
        width: 10,
        height: 21,
        rgba: vec![7; 10 * 21 * 4],
    };
    assert_eq!(extract_tray_icon(&small, 0, 0), vec![7; 32 * 32 * 4]);
    assert_eq!(extract_tray_icon(&small, 0, 1), vec![0; 32 * 32 * 4]);
}

#[test]
fn one_frame_needs_no_more_of_the_sheet() {
    let small = Sprite {
        width: 21,
        height: 32,
        rgba: vec![7; 21 * 32 * 4],
    };
    let icon = draw_tray_frame(&small, 0, 0);
    assert_eq!(icon.len(), 68 * 44 * 4);
    assert_eq!(&icon[40..44], &[7, 7, 7, 7]);
    assert!(extract_tray_frame_as_png(&small, 0, 0).is_some());
}

#[test]
fn png_is_read_back() {
    let rgba: Vec<u8> = vec![1, 2, 3, 4, 5, 6, 7, 8];
    let png = encode_png(&rgba, 2, 1).unwrap();
    assert_ne!(png, rgba);
    let sprite = decode_sprite(&png).unwrap();
    assert_eq!((sprite.width, sprite.height), (2, 1));
    assert_eq!(sprite.rgba, rgba);
    assert!(decode_sprite(&[1, 2, 3]).is_none());
    assert_eq!(
        enlarge(vec![1, 2, 3, 4, 5, 6, 7, 8], 2, 1, 4, 1),
        vec![1, 2, 3, 4, 1, 2, 3, 4, 5, 6, 7, 8, 5, 6, 7, 8]
    );
}

#[test]
fn frame_is_cropped_to_what_is_drawn() {
    let mut rgba: Vec<u8> = vec![0; 64 * 32 * 4];
    for (x, y) in [(40, 10), (45, 20)] {
        let at = (y * 64 + x) * 4;
        rgba[at] = 200;
        rgba[at + 3] = 255;
    }
    let sheet = Sprite {
        width: 64,
        height: 32,
        rgba,
    };
    let bounds = find_bounds(&sheet, 0, 1).unwrap();
    assert_eq!(
        (bounds.min_x, bounds.min_y, bounds.max_x, bounds.max_y),
        (8, 10, 13, 20)
    );
    assert!(find_bounds(&sheet, 0, 0).is_none());
    let frame = crop_frame(&sheet, 0, 1).unwrap();
    assert_eq!((frame.width, frame.height), (6, 11));
    assert_eq!(frame.rows_below, 11);
    assert_eq!(frame.rgba[0], 200);
    assert!(crop_frame(&sheet, 0, 0).is_none());
    assert_eq!(cut_out(&sheet, 40, 10, 1, 1), vec![200, 0, 0, 255]);
}
