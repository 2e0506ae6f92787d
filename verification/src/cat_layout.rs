//! The layout of the cat window: which screen it stands on and which rectangle the cats walk
//! in. Coordinates are carried through as they are; `T` is their type.

use vstd::prelude::*;

use crate::text;
use crate::text::same_text;

verus! {

/// A rectangle in points, by its corner and its size.
#[derive(Clone, Copy, PartialEq, Debug)]
pub struct Rect<T> {
    pub x: T,
    pub y: T,
    pub width: T,
    pub height: T,
}

impl<T> Rect<T> {
    /// A rectangle.
    pub fn new(x: T, y: T, width: T, height: T) -> (r: Rect<T>)
        ensures
            r == (Rect { x, y, width, height }),
    {
        Rect { x, y, width, height }
    }
}

/// A point.
#[derive(Clone, Copy, PartialEq, Debug)]
pub struct Pos2<T> {
    pub x: T,
    pub y: T,
}

/// One screen: all of it, and the part that the system leaves free.
#[derive(Clone, PartialEq, Debug)]
pub struct ScreenSnapshot<T> {
    pub id: String,
    pub frame: Rect<T>,
    pub visible_frame: Rect<T>,
    pub scale_factor: T,
}

impl<T> ScreenSnapshot<T> {
    /// A screen.
    pub fn new(id: &str, frame: Rect<T>, visible_frame: Rect<T>, scale_factor: T) -> (r:
        ScreenSnapshot<T>)
        ensures
            r.id@ == id@,
            r.frame == frame,
            r.visible_frame == visible_frame,
            r.scale_factor == scale_factor,
    {
        ScreenSnapshot { id: id.to_owned(), frame, visible_frame, scale_factor }
    }
}

/// Where the cats walk: on the Dock at the bottom, or on the floor of the screen where the Dock
/// is at a side.
#[derive(Clone, Copy, PartialEq, Eq, Debug, Structural)]
pub enum DockPlacementMode {
    Bottom,
    Floor,
}

/// The Dock.
#[derive(Clone, PartialEq, Debug)]
pub struct DockSnapshot<T> {
    pub anchor_screen_id: String,
    pub dock_frame: Option<Rect<T>>,
    /// Where the cats walk on the Dock, if not on all of it.
    pub walk_bounds: Option<Rect<T>>,
    pub mode: DockPlacementMode,
    pub autohide: bool,
}

/// What is known of the Dock.
pub struct DockView<T> {
    pub anchor_screen_id: Seq<char>,
    pub dock_frame: Option<Rect<T>>,
    pub walk_bounds: Option<Rect<T>>,
    pub mode: DockPlacementMode,
    pub autohide: bool,
}

impl<T> View for DockSnapshot<T> {
    type V = DockView<T>;

    open spec fn view(&self) -> DockView<T> {
        DockView {
            anchor_screen_id: self.anchor_screen_id@,
            dock_frame: self.dock_frame,
            walk_bounds: self.walk_bounds,
            mode: self.mode,
            autohide: self.autohide,
        }
    }
}

impl<T> DockSnapshot<T> {
    /// A Dock at the bottom.
    pub fn bottom(anchor_screen_id: &str, dock_frame: Rect<T>, autohide: bool) -> (r: DockSnapshot<T>)
        ensures
            r@ == (DockView {
                anchor_screen_id: anchor_screen_id@,
                dock_frame: Some(dock_frame),
                walk_bounds: None,
                mode: DockPlacementMode::Bottom,
                autohide,
            }),
    {
        DockSnapshot {
            anchor_screen_id: anchor_screen_id.to_owned(),
            dock_frame: Some(dock_frame),
            walk_bounds: None,
            mode: DockPlacementMode::Bottom,
            autohide,
        }
    }

    /// A Dock at the bottom, on a part of which the cats walk.
    pub fn bottom_with_walk_bounds(
        anchor_screen_id: &str,
        dock_frame: Rect<T>,
        walk_bounds: Rect<T>,
        autohide: bool,
    ) -> (r: DockSnapshot<T>)
        ensures
            r@ == (DockView {
                anchor_screen_id: anchor_screen_id@,
                dock_frame: Some(dock_frame),
                walk_bounds: Some(walk_bounds),
                mode: DockPlacementMode::Bottom,
                autohide,
            }),
    {
        DockSnapshot {
            anchor_screen_id: anchor_screen_id.to_owned(),
            dock_frame: Some(dock_frame),
            walk_bounds: Some(walk_bounds),
            mode: DockPlacementMode::Bottom,
            autohide,
        }
    }

    /// A Dock at a side.
    pub fn side(anchor_screen_id: &str, mode: DockPlacementMode, autohide: bool) -> (r: DockSnapshot<T>)
        ensures
            r@ == (DockView {
                anchor_screen_id: anchor_screen_id@,
                dock_frame: None::<Rect<T>>,
                walk_bounds: None::<Rect<T>>,
                mode,
                autohide,
            }),
    {
        DockSnapshot {
            anchor_screen_id: anchor_screen_id.to_owned(),
            dock_frame: None,
            walk_bounds: None,
            mode,
            autohide,
        }
    }
}

/// Where the window stands and the cats walk.
#[derive(Clone, PartialEq, Debug)]
pub struct CatWindowLayout<T> {
    pub anchor_screen_id: String,
    pub window_origin: Pos2<T>,
    pub walk_bounds: Rect<T>,
    pub mode: DockPlacementMode,
}

/// The position of the first screen with this identity, from `from` on.
pub open spec fn screen_index<T>(screens: Seq<ScreenSnapshot<T>>, id: Seq<char>, from: int) -> Option<
    int,
>
    decreases screens.len() - from,
{
    if from < 0 || from >= screens.len() {
        None
    } else if screens[from].id@ == id {
        Some(from)
    } else {
        screen_index(screens, id, from + 1)
    }
}

/// The rectangle that the window stands on: the Dock at the bottom, or the free part of the
/// screen. Nothing where the screen or the Dock's rectangle is missing.
pub open spec fn ground<T>(screens: Seq<ScreenSnapshot<T>>, dock: DockView<T>) -> Option<Rect<T>> {
    match screen_index(screens, dock.anchor_screen_id, 0) {
        Some(i) => match dock.mode {
            DockPlacementMode::Bottom => dock.dock_frame,
            DockPlacementMode::Floor => Some(screens[i].visible_frame),
        },
        None => None,
    }
}

/// The rectangle that the cats walk in, on that ground.
pub open spec fn walkway<T>(ground: Rect<T>, dock: DockView<T>) -> Rect<T> {
    match (dock.mode, dock.walk_bounds) {
        (DockPlacementMode::Bottom, Some(bounds)) => bounds,
        _ => ground,
    }
}

fn find_screen<T>(screens: &Vec<ScreenSnapshot<T>>, id: &str) -> (r: Option<usize>)
    ensures
        match r {
            Some(i) => i < screens@.len() && screen_index(screens@, id@, 0) == Some(i as int),
            None => screen_index(screens@, id@, 0) is None,
        },
{
    let mut i: usize = 0;
    while i < screens.len()
        invariant
            i <= screens@.len(),
            screen_index(screens@, id@, 0) == screen_index(screens@, id@, i as int),
        decreases screens@.len() - i,
    {
        if same_text(&screens[i].id, id) {
            return Some(i);
        }
        i += 1;
    }
    None
}

/// Lays the cat window out. `window_top` computes the window's upper edge from the rectangle
/// that it stands on.
pub fn compute_cat_window_layout<T: Copy, F: Fn(Rect<T>, DockPlacementMode) -> T>(
    screens: &Vec<ScreenSnapshot<T>>,
    dock: &DockSnapshot<T>,
    window_top: F,
) -> (r: Option<CatWindowLayout<T>>)
    requires
        forall|rect: Rect<T>, mode: DockPlacementMode| call_requires(window_top, (rect, mode)),
    ensures
        match ground(screens@, dock@) {
            Some(rect) => r matches Some(layout) && layout.anchor_screen_id@
                == dock@.anchor_screen_id && layout.mode == dock.mode && layout.walk_bounds
                == walkway(rect, dock@) && layout.window_origin.x == rect.x && call_ensures(
                window_top,
                (rect, dock.mode),
                layout.window_origin.y,
            ),
            None => r is None,
        },
{
    match find_screen(screens, &dock.anchor_screen_id) {
        Some(i) => {
            let screen = &screens[i];
            let rect = match dock.mode {
                DockPlacementMode::Bottom => match &dock.dock_frame {
                    Some(frame) => *frame,
                    None => {
                        return None;
                    },
                },
                DockPlacementMode::Floor => screen.visible_frame,
            };
            let walk_bounds = match (dock.mode, &dock.walk_bounds) {
                (DockPlacementMode::Bottom, Some(bounds)) => *bounds,
                _ => rect,
            };
            let top = window_top(rect, dock.mode);
            proof {
                lemma_screen_index(screens@, dock@.anchor_screen_id, 0);
            }
            Some(
                CatWindowLayout {
                    anchor_screen_id: screen.id.clone(),
                    window_origin: Pos2 { x: rect.x, y: top },
                    walk_bounds,
                    mode: dock.mode,
                },
            )
        },
        None => None,
    }
}

proof fn lemma_screen_index<T>(screens: Seq<ScreenSnapshot<T>>, id: Seq<char>, from: int)
    requires
        0 <= from <= screens.len(),
    ensures
        match screen_index(screens, id, from) {
            Some(i) => from <= i < screens.len() && screens[i].id@ == id && forall|j: int|
                from <= j < i ==> (#[trigger] screens[j]).id@ != id,
            None => forall|j: int| from <= j < screens.len() ==> (#[trigger] screens[j]).id@ != id,
        },
    decreases screens.len() - from,
{
    if from < screens.len() && screens[from].id@ != id {
        lemma_screen_index(screens, id, from + 1);
    }
}

/// There is a layout just where the anchor screen is there and a Dock at the bottom has a
/// rectangle.
pub proof fn law_layout_needs_screen_and_dock<T>(
    screens: Seq<ScreenSnapshot<T>>,
    dock: DockView<T>,
)
    ensures
        ground(screens, dock) is Some <==> (exists|i: int|
            0 <= i < screens.len() && (#[trigger] screens[i]).id@ == dock.anchor_screen_id) && (
        dock.mode == DockPlacementMode::Floor || dock.dock_frame is Some),
{
    lemma_screen_index(screens, dock.anchor_screen_id, 0);
}

/// With the Dock at a side, the cats walk in the free part of the anchor screen, whatever else
/// is known of the Dock.
pub proof fn law_side_dock_walks_on_visible_frame<T>(
    screens: Seq<ScreenSnapshot<T>>,
    dock: DockView<T>,
    i: int,
)
    requires
        0 <= i < screens.len(),
        screens[i].id@ == dock.anchor_screen_id,
        forall|j: int| 0 <= j < i ==> (#[trigger] screens[j]).id@ != dock.anchor_screen_id,
        dock.mode == DockPlacementMode::Floor,
    ensures
        ground(screens, dock) == Some(screens[i].visible_frame),
        walkway(screens[i].visible_frame, dock) == screens[i].visible_frame,
{
    lemma_screen_index(screens, dock.anchor_screen_id, 0);
}

/// With the Dock at the bottom of a screen that is there, the window stands on the Dock, and the
/// cats walk on the part of it that is given for that, or on all of it.
pub proof fn law_bottom_dock_is_the_ground<T>(
    screens: Seq<ScreenSnapshot<T>>,
    dock: DockView<T>,
    i: int,
    frame: Rect<T>,
)
    requires
        0 <= i < screens.len(),
        screens[i].id@ == dock.anchor_screen_id,
        dock.mode == DockPlacementMode::Bottom,
        dock.dock_frame == Some(frame),
    ensures
        ground(screens, dock) == Some(frame),
        dock.walk_bounds is None ==> walkway(frame, dock) == frame,
        dock.walk_bounds is Some ==> walkway(frame, dock) == dock.walk_bounds->0,
{
    lemma_screen_index(screens, dock.anchor_screen_id, 0);
}

/// Of several screens with one identity the first counts.
pub proof fn law_first_screen_counts<T>(
    screens: Seq<ScreenSnapshot<T>>,
    id: Seq<char>,
    i: int,
)
    requires
        0 <= i < screens.len(),
        screens[i].id@ == id,
        forall|j: int| 0 <= j < i ==> (#[trigger] screens[j]).id@ != id,
    ensures
        screen_index(screens, id, 0) == Some(i),
{
    lemma_screen_index(screens, id, 0);
}

} // verus!
