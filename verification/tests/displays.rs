use std::time::Duration;

use vibe_cat::cat_layout::{
    compute_cat_window_layout, DockPlacementMode, DockSnapshot, Rect, ScreenSnapshot,
};
use vibe_cat::display::{
    build_bottom_mode_sample, build_floor_mode_sample, current_display_choices,
    display_choices_from_screens, find_dock_screen, main_screen_snapshot,
    resolve_display_location_dock_sample, resolve_display_location_mode,
    resolve_dock_anchor_screen, screen_by_id, screen_by_selection_id,
    select_side_dock_anchor_screen, select_side_dock_anchor_screen_with_preference,
    DisplayLocationMode, DockPlace, MacScreenSnapshot,
};
use vibe_cat::dock::{
    dock_refresh_interval_for_tick, layout_changed, macos_window_appearance_config,
    refresh_interval, resolve_next_applied_layout, selection_id, should_run_fast_autohide_probe,
    AppliedLayout,
};

fn build_screen_id(name: &str, frame: &Rect<f32>, scale_factor: f32) -> String {
    format!(
        "{}|{:.1},{:.1},{:.1},{:.1}|{:.2}",
        name, frame.x, frame.y, frame.width, frame.height, scale_factor
    )
}

/// The bits of a number that is not negative order as the number does.
fn order_bits(value: f32) -> u32 {
    value.max(0.0).to_bits()
}

fn make_screen(
    name: &str,
    frame: Rect<f32>,
    visible: Rect<f32>,
    scale_factor: f32,
    is_main: bool,
) -> MacScreenSnapshot<f32> {
    let id = build_screen_id(name, &frame, scale_factor);
    MacScreenSnapshot {
        selection_id: format!("selection-{}", id),
        id,
        name: name.to_string(),
        scale_bits: order_bits(scale_factor),
        left_inset_bits: order_bits(visible.x - frame.x),
        right_inset_bits: order_bits((frame.x + frame.width) - (visible.x + visible.width)),
        frame,
        visible_frame: visible,
        scale_factor,
        is_main,
    }
}

/// The left end, the base line and the width of a window.
type Geometry = (f32, f32, f32);

fn make_layout(
    anchor_screen_id: &str,
    window_origin_x: f32,
    base_y: f32,
    width: f32,
    mode: DockPlacementMode,
) -> AppliedLayout<Geometry> {
    AppliedLayout {
        anchor_screen_id: anchor_screen_id.to_string(),
        geometry: (window_origin_x, base_y, width),
        dock_mode: mode,
        dock_autohide: false,
    }
}

fn moved(a: &AppliedLayout<Geometry>, b: &AppliedLayout<Geometry>) -> bool {
    (a.geometry.0 - b.geometry.0).abs() > 0.5
        || (a.geometry.1 - b.geometry.1).abs() > 0.5
        || (a.geometry.2 - b.geometry.2).abs() > 0.5
}

#[test]
fn layout_changed_detects_anchor_screen_change_even_when_width_unchanged() {
    let previous = make_layout("main", 0.0, 1092.0, 1200.0, DockPlacementMode::Bottom);
    let next = make_layout("external", 1728.0, 1055.0, 1200.0, DockPlacementMode::Bottom);

    assert!(layout_changed(Some(&previous), &next, moved(&previous, &next)));
    assert!(layout_changed(Some(&previous), &next, false));
}

#[test]
fn applied_layout_should_not_advance_when_layout_is_unchanged() {
    let applied = make_layout("main", 0.0, 1092.0, 1200.0, DockPlacementMode::Bottom);
    let sampled = make_layout("main", 0.2, 1092.3, 1200.2, DockPlacementMode::Bottom);

    assert!(!layout_changed(Some(&applied), &sampled, moved(&applied, &sampled)));
    assert!(
        resolve_next_applied_layout(Some(&applied), &sampled, moved(&applied, &sampled)).is_none()
    );
}

#[test]
fn first_layout_is_always_applied() {
    let sampled = make_layout("main", 0.0, 1092.0, 1200.0, DockPlacementMode::Bottom);
    let next = resolve_next_applied_layout(None, &sampled, false);
    assert_eq!(next.map(|l| l.anchor_screen_id.as_str()), Some("main"));
    let floor = make_layout("main", 0.0, 1092.0, 1200.0, DockPlacementMode::Floor);
    assert!(layout_changed(Some(&sampled), &floor, false));
    assert!(layout_changed(Some(&sampled), &sampled, true));
}

#[test]
fn manual_display_mode_should_fall_back_to_auto_when_selection_disappears() {
    let main = make_screen(
        "Built-in Retina",
        Rect::new(0.0, 0.0, 1512.0, 982.0),
        Rect::new(0.0, 58.0, 1512.0, 891.0),
        2.0,
        true,
    );
    let screens = vec![main];

    let mode = resolve_display_location_mode(
        &screens,
        DisplayLocationMode::Specific("missing-display".to_string()),
    );

    assert_eq!(mode, DisplayLocationMode::Auto);
}

#[test]
fn manual_display_mode_should_use_floor_layout_when_dock_is_on_other_display() {
    let main = make_screen(
        "Built-in Retina",
        Rect::new(0.0, 0.0, 1728.0, 1117.0),
        Rect::new(0.0, 25.0, 1728.0, 1070.0),
        2.0,
        true,
    );
    let external = make_screen(
        "External",
        Rect::new(1728.0, 0.0, 1920.0, 1080.0),
        Rect::new(1728.0, 25.0, 1920.0, 1035.0),
        1.0,
        false,
    );
    let screens = vec![main.clone(), external.clone()];
    let auto_sample = build_bottom_mode_sample(
        &external,
        Rect::new(2100.0, 980.0, 900.0, 80.0),
        Rect::new(2100.0, 980.0, 900.0, 80.0),
        false,
    );

    let sample = resolve_display_location_dock_sample(
        &screens,
        &auto_sample,
        &DisplayLocationMode::Specific(main.selection_id.clone()),
    );

    assert_eq!(sample.dock_snapshot.anchor_screen_id, main.id);
    assert_eq!(sample.dock_snapshot.mode, DockPlacementMode::Floor);
    assert_eq!(sample.walk_bounds, main.visible_frame);
}

#[test]
fn manual_display_mode_should_reuse_dock_layout_when_dock_is_on_selected_display() {
    let main = make_screen(
        "Built-in Retina",
        Rect::new(0.0, 0.0, 1728.0, 1117.0),
        Rect::new(0.0, 25.0, 1728.0, 1070.0),
        2.0,
        true,
    );
    let external = make_screen(
        "External",
        Rect::new(1728.0, 0.0, 1920.0, 1080.0),
        Rect::new(1728.0, 25.0, 1920.0, 1035.0),
        1.0,
        false,
    );
    let screens = vec![main, external.clone()];
    let auto_sample = build_bottom_mode_sample(
        &external,
        Rect::new(2100.0, 980.0, 900.0, 80.0),
        Rect::new(2100.0, 980.0, 900.0, 80.0),
        false,
    );

    let sample = resolve_display_location_dock_sample(
        &screens,
        &auto_sample,
        &DisplayLocationMode::Specific(external.selection_id.clone()),
    );

    assert_eq!(sample.dock_snapshot.anchor_screen_id, external.id);
    assert_eq!(sample.dock_snapshot.mode, auto_sample.dock_snapshot.mode);
    assert_eq!(sample.walk_bounds, auto_sample.walk_bounds);
}

#[test]
fn display_menu_choices_should_suffix_duplicate_names() {
    let left = make_screen(
        "Studio Display",
        Rect::new(-1440.0, 0.0, 1440.0, 900.0),
        Rect::new(-1440.0, 25.0, 1440.0, 850.0),
        1.0,
        false,
    );
    let right = make_screen(
        "Studio Display",
        Rect::new(0.0, 0.0, 1440.0, 900.0),
        Rect::new(0.0, 25.0, 1440.0, 850.0),
        1.0,
        true,
    );

    let choices = display_choices_from_screens(&vec![left, right]);

    assert_eq!(choices.len(), 2);
    assert_eq!(choices[0].label, "Studio Display #1");
    assert_eq!(choices[1].label, "Studio Display #2");
}

fn labels_of(names: &[&str]) -> Vec<String> {
    let screens: Vec<MacScreenSnapshot<f32>> = names
        .iter()
        .map(|name| {
            make_screen(
                name,
                Rect::new(0.0, 0.0, 1440.0, 900.0),
                Rect::new(0.0, 25.0, 1440.0, 850.0),
                1.0,
                true,
            )
        })
        .collect();
    let choices = display_choices_from_screens(&screens);
    choices.iter().map(|choice| choice.label.clone()).collect()
}

#[test]
fn labels_tell_all_displays_apart() {
    assert_eq!(labels_of(&["A", "A", "A #1"]), vec!["A #2", "A #3", "A #1"]);
    assert_eq!(labels_of(&["A", "A #2", "A"]), vec!["A #1", "A #2", "A #3"]);
    assert_eq!(
        labels_of(&["A #1", "A", "A #1", "A"]),
        vec!["A #1 #1", "A #2", "A #1 #2", "A #3"]
    );
    assert_eq!(labels_of(&["A", "B", "A #1"]), vec!["A", "B", "A #1"]);
    assert!(labels_of(&[]).is_empty());
}

#[test]
fn single_display_keeps_its_name() {
    let only = make_screen(
        "Studio Display",
        Rect::new(0.0, 0.0, 1440.0, 900.0),
        Rect::new(0.0, 25.0, 1440.0, 850.0),
        1.0,
        true,
    );
    let selection = only.selection_id.clone();
    let choices = current_display_choices(&Some(vec![only]));
    assert_eq!(choices.len(), 1);
    assert_eq!(choices[0].label, "Studio Display");
    assert_eq!(choices[0].selection_id, selection);
    assert!(choices[0].is_main);
    assert_eq!(current_display_choices::<f32>(&None).len(), 0);
}

#[test]
fn floor_mode_bounds_should_use_visible_frame_width() {
    let screen = make_screen(
        "Right Dock Screen",
        Rect::new(0.0, 0.0, 1512.0, 982.0),
        Rect::new(96.0, 25.0, 1416.0, 957.0),
        2.0,
        true,
    );

    let sample = build_floor_mode_sample(&screen, true);

    assert_eq!(sample.walk_bounds.x, screen.visible_frame.x);
    assert_eq!(sample.walk_bounds.width, screen.visible_frame.width);
}

#[test]
fn side_dock_left_orientation_should_anchor_to_screen_with_left_inset() {
    let main = make_screen(
        "Built-in Retina",
        Rect::new(0.0, 0.0, 1728.0, 1117.0),
        Rect::new(0.0, 25.0, 1728.0, 1070.0),
        2.0,
        true,
    );
    let secondary = make_screen(
        "External Left Dock",
        Rect::new(1728.0, 0.0, 1920.0, 1080.0),
        Rect::new(1808.0, 25.0, 1840.0, 1035.0),
        1.0,
        false,
    );
    let screens = vec![main.clone(), secondary.clone()];

    let dock_screen = select_side_dock_anchor_screen(&screens, &main, "left");
    assert_eq!(dock_screen.id, secondary.id);
}

#[test]
fn side_dock_right_orientation_should_anchor_to_screen_with_right_inset() {
    let main = make_screen(
        "Built-in Retina",
        Rect::new(0.0, 0.0, 1728.0, 1117.0),
        Rect::new(0.0, 25.0, 1728.0, 1070.0),
        2.0,
        true,
    );
    let secondary = make_screen(
        "External Right Dock",
        Rect::new(1728.0, 0.0, 1920.0, 1080.0),
        Rect::new(1728.0, 25.0, 1842.0, 1035.0),
        1.0,
        false,
    );
    let screens = vec![main.clone(), secondary.clone()];

    let dock_screen = select_side_dock_anchor_screen(&screens, &main, "right");
    assert_eq!(dock_screen.id, secondary.id);
}

#[test]
fn side_dock_autohide_hidden_should_keep_preferred_anchor_screen_when_no_inset() {
    let main = make_screen(
        "Built-in Retina",
        Rect::new(0.0, 0.0, 1728.0, 1117.0),
        Rect::new(0.0, 0.0, 1728.0, 1117.0),
        2.0,
        true,
    );
    let secondary = make_screen(
        "External Side Dock",
        Rect::new(1728.0, 0.0, 1920.0, 1080.0),
        Rect::new(1728.0, 0.0, 1920.0, 1080.0),
        1.0,
        false,
    );
    let screens = vec![main.clone(), secondary.clone()];

    let dock_screen = select_side_dock_anchor_screen_with_preference(
        &screens,
        &main,
        Some(&secondary.id),
        "left",
    );
    assert_eq!(
        dock_screen.id, secondary.id,
        "Dock 隐藏态无法通过 visible_frame 内缩推断时，应优先保留上次确认的副屏锚点"
    );
}

#[test]
fn dock_is_looked_for_at_the_side_then_where_it_was_found() {
    let main = make_screen(
        "Built-in Retina",
        Rect::new(0.0, 0.0, 1728.0, 1117.0),
        Rect::new(0.0, 25.0, 1728.0, 1070.0),
        2.0,
        true,
    );
    let secondary = make_screen(
        "External",
        Rect::new(1728.0, 0.0, 1920.0, 1080.0),
        Rect::new(1808.0, 25.0, 1840.0, 1035.0),
        1.0,
        false,
    );
    let found = secondary.id.clone();
    let screens = vec![main.clone(), secondary.clone()];
    let side = find_dock_screen(&screens, &main, None, Some("left"), None);
    assert!(matches!(side, DockPlace::Side(s) if s.id == secondary.id));
    let bottom = find_dock_screen(&screens, &main, None, None, Some(&found));
    assert!(matches!(bottom, DockPlace::Found(s) if s.id == secondary.id));
    let lost = find_dock_screen(&screens, &main, None, None, Some("gone"));
    assert!(matches!(lost, DockPlace::Found(s) if s.id == main.id));
    let supposed = find_dock_screen(&screens, &main, None, None, None);
    assert!(matches!(supposed, DockPlace::Supposed(s) if s.id == main.id));
}

#[test]
fn displays_are_found_by_identity_and_by_selection() {
    let main = make_screen(
        "Built-in Retina",
        Rect::new(0.0, 0.0, 1728.0, 1117.0),
        Rect::new(0.0, 25.0, 1728.0, 1070.0),
        2.0,
        true,
    );
    let external = make_screen(
        "External",
        Rect::new(1728.0, 0.0, 1920.0, 1080.0),
        Rect::new(1728.0, 40.0, 1920.0, 1040.0),
        1.0,
        false,
    );
    let screens = vec![external.clone(), main.clone()];
    assert_eq!(main_screen_snapshot(&screens).map(|s| s.id.clone()), Some(main.id.clone()));
    assert_eq!(
        screen_by_id(&screens, &external.id).map(|s| s.name.clone()),
        Some("External".to_string())
    );
    assert!(screen_by_id(&screens, "gone").is_none());
    assert_eq!(
        screen_by_selection_id(&screens, &main.selection_id).map(|s| s.name.clone()),
        Some("Built-in Retina".to_string())
    );
    let sample = build_floor_mode_sample(&external, false);
    assert_eq!(resolve_dock_anchor_screen(&screens, &main, &sample).id, external.id);
    assert!(main_screen_snapshot::<f32>(&vec![]).is_none());
}

#[test]
fn selection_is_the_display_number_where_there_is_one() {
    assert_eq!(selection_id(Some(7), "screen"), "display-7");
    assert_eq!(selection_id(Some(0), "screen"), "screen");
    assert_eq!(selection_id(None, "screen"), "screen");
}

#[test]
fn autohide_layout_uses_fast_refresh_interval() {
    assert_eq!(refresh_interval(true), Duration::from_millis(250));
    assert_eq!(refresh_interval(false), Duration::from_secs(5));
}

#[test]
fn live_autohide_probe_should_override_stale_applied_layout_for_refresh() {
    let stale_layout = make_layout("main", 0.0, 1092.0, 1200.0, DockPlacementMode::Bottom);

    let interval = dock_refresh_interval_for_tick(Some(&stale_layout), Some(true));
    assert_eq!(interval, Duration::from_millis(250));
}

#[test]
fn fast_autohide_probe_should_stop_when_applied_layout_is_autohide() {
    let mut autohide_layout = make_layout("main", 0.0, 1092.0, 1200.0, DockPlacementMode::Bottom);
    autohide_layout.dock_autohide = true;

    assert!(!should_run_fast_autohide_probe(Some(&autohide_layout)));
    assert!(should_run_fast_autohide_probe::<Geometry>(None));
}

#[test]
fn macos_window_appearance_should_force_clear_non_opaque_window() {
    let config = macos_window_appearance_config();

    assert!(config.ignores_mouse_events);
    assert!(!config.has_shadow);
    assert!(!config.opaque);
    assert!(config.order_front_regardless);
}

/// The top of a window of a cat and a bubble above the Dock.
fn window_top(rect: Rect<f32>, mode: DockPlacementMode) -> f32 {
    match mode {
        DockPlacementMode::Bottom => rect.y - 96.0 - 22.0,
        DockPlacementMode::Floor => rect.y + rect.height - 96.0 - 22.0,
    }
}

#[test]
fn bottom_dock_on_secondary_screen_keeps_global_origin() {
    let screens = vec![
        ScreenSnapshot::new(
            "primary",
            Rect::new(0.0, 0.0, 1728.0, 1117.0),
            Rect::new(0.0, 25.0, 1728.0, 1070.0),
            2.0,
        ),
        ScreenSnapshot::new(
            "external",
            Rect::new(1728.0, 0.0, 1920.0, 1080.0),
            Rect::new(1728.0, 25.0, 1920.0, 1035.0),
            1.0,
        ),
    ];
    let dock = DockSnapshot::bottom("external", Rect::new(2140.0, 980.0, 900.0, 80.0), false);

    let layout = compute_cat_window_layout(&screens, &dock, window_top).unwrap();

    assert_eq!(layout.anchor_screen_id, "external");
    assert_eq!(layout.window_origin.x, 2140.0);
    assert!(layout.window_origin.y < 980.0);
}

#[test]
fn side_dock_falls_back_to_floor_mode_inside_visible_frame() {
    let screens = vec![ScreenSnapshot::new(
        "primary",
        Rect::new(0.0, 0.0, 1512.0, 982.0),
        Rect::new(96.0, 25.0, 1416.0, 957.0),
        2.0,
    )];
    let dock = DockSnapshot::side("primary", DockPlacementMode::Floor, true);

    let layout = compute_cat_window_layout(&screens, &dock, window_top).unwrap();

    assert_eq!(layout.window_origin.x, 96.0);
    assert_eq!(layout.walk_bounds.width, 1416.0);
}

#[test]
fn no_layout_without_the_display_of_the_dock() {
    let screens = vec![ScreenSnapshot::new(
        "primary",
        Rect::new(0.0, 0.0, 1512.0, 982.0),
        Rect::new(96.0, 25.0, 1416.0, 957.0),
        2.0,
    )];
    let dock = DockSnapshot::side("elsewhere", DockPlacementMode::Floor, true);
    assert!(compute_cat_window_layout(&screens, &dock, window_top).is_none());
    let mut unseen = DockSnapshot::bottom("primary", Rect::new(0.0, 0.0, 1.0, 1.0), false);
    unseen.dock_frame = None;
    unseen.walk_bounds = None;
    assert!(compute_cat_window_layout(&screens, &unseen, window_top).is_none());
}
