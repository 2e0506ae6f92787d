//! The displays: which of them the cats follow, and what the display menu offers.

use vstd::prelude::*;

use crate::cat_layout;
use crate::cat_layout::{DockPlacementMode, DockSnapshot, Rect};
use crate::text;
use crate::text::{concat3, same_text, text_precedes};

verus! {

/// A display as it was sampled. What is to be ordered by size is held by the bits of the
/// non-negative coordinate, which order as the coordinates do.
#[derive(Clone, Debug)]
pub struct MacScreenSnapshot<T> {
    pub id: String,
    pub selection_id: String,
    pub name: String,
    pub frame: Rect<T>,
    pub visible_frame: Rect<T>,
    pub scale_factor: T,
    pub is_main: bool,
    /// The bits of the scale.
    pub scale_bits: u32,
    /// The bits of how far the free part is in from the left.
    pub left_inset_bits: u32,
    /// The bits of how far the free part is in from the right.
    pub right_inset_bits: u32,
}

/// The bits of one half of a point.
pub const HALF_POINT_BITS: u32 = 0x3f00_0000;

/// Which display the cats are on: the one of the Dock, or one that the user chose.
#[derive(Clone, PartialEq, Eq, Debug)]
pub enum DisplayLocationMode {
    Auto,
    Specific(String),
}

/// Which display is meant.
pub enum ModeView {
    Auto,
    Specific(Seq<char>),
}

impl View for DisplayLocationMode {
    type V = ModeView;

    open spec fn view(&self) -> ModeView {
        match self {
            DisplayLocationMode::Auto => ModeView::Auto,
            DisplayLocationMode::Specific(id) => ModeView::Specific(id@),
        }
    }
}

impl DisplayLocationMode {
    /// The same choice.
    pub fn copy(&self) -> (r: DisplayLocationMode)
        ensures
            r@ == self@,
    {
        match self {
            DisplayLocationMode::Auto => DisplayLocationMode::Auto,
            DisplayLocationMode::Specific(id) => DisplayLocationMode::Specific(id.clone()),
        }
    }

    /// Whether two choices are the same.
    pub fn same(&self, other: &DisplayLocationMode) -> (r: bool)
        ensures
            r == (self@ == other@),
    {
        match (self, other) {
            (DisplayLocationMode::Auto, DisplayLocationMode::Auto) => true,
            (DisplayLocationMode::Specific(a), DisplayLocationMode::Specific(b)) => same_text(
                a,
                b,
            ),
            _ => false,
        }
    }
}

/// One line of the display menu.
#[derive(Clone, PartialEq, Eq, Debug)]
pub struct DisplayChoice {
    pub selection_id: String,
    pub label: String,
    pub is_main: bool,
}

/// What a line of the display menu says.
#[verifier::ext_equal]
pub struct ChoiceView {
    pub selection_id: Seq<char>,
    pub label: Seq<char>,
    pub is_main: bool,
}

impl View for DisplayChoice {
    type V = ChoiceView;

    open spec fn view(&self) -> ChoiceView {
        ChoiceView {
            selection_id: self.selection_id@,
            label: self.label@,
            is_main: self.is_main,
        }
    }
}

/// The views of the lines.
pub open spec fn choice_views(choices: Seq<DisplayChoice>) -> Seq<ChoiceView> {
    choices.map_values(|c: DisplayChoice| c@)
}

/// The Dock, and where the cats walk.
#[derive(Clone, Debug)]
pub struct DockPlacementSample<T> {
    pub dock_snapshot: DockSnapshot<T>,
    pub walk_bounds: Rect<T>,
}

/// What is known of the Dock and of the walk.
pub struct SampleView<T> {
    pub dock: cat_layout::DockView<T>,
    pub walk_bounds: Rect<T>,
}

impl<T> View for DockPlacementSample<T> {
    type V = SampleView<T>;

    open spec fn view(&self) -> SampleView<T> {
        SampleView { dock: self.dock_snapshot@, walk_bounds: self.walk_bounds }
    }
}

// ---------------------------------------------------------------------------
// Finding displays
// ---------------------------------------------------------------------------

/// The position of the first display with this identity, from `from` on.
pub open spec fn id_index<T>(screens: Seq<MacScreenSnapshot<T>>, id: Seq<char>, from: int) -> Option<
    int,
>
    decreases screens.len() - from,
{
    if from < 0 || from >= screens.len() {
        None
    } else if screens[from].id@ == id {
        Some(from)
    } else {
        id_index(screens, id, from + 1)
    }
}

/// The position of the first display with this selection, from `from` on.
pub open spec fn selection_index<T>(
    screens: Seq<MacScreenSnapshot<T>>,
    selection: Seq<char>,
    from: int,
) -> Option<int>
    decreases screens.len() - from,
{
    if from < 0 || from >= screens.len() {
        None
    } else if screens[from].selection_id@ == selection {
        Some(from)
    } else {
        selection_index(screens, selection, from + 1)
    }
}

/// The display at a position, where there is one.
pub open spec fn at<T>(screens: Seq<MacScreenSnapshot<T>>, index: Option<int>) -> Option<
    MacScreenSnapshot<T>,
> {
    match index {
        Some(i) => Some(screens[i]),
        None => None,
    }
}

/// The value behind an optional reference.
pub open spec fn value_of<A>(reference: Option<&A>) -> Option<A> {
    match reference {
        Some(value) => Some(*value),
        None => None,
    }
}

/// The display with this identity.
pub fn screen_by_id<'a, T>(screens: &'a Vec<MacScreenSnapshot<T>>, screen_id: &str) -> (r: Option<
    &'a MacScreenSnapshot<T>,
>)
    ensures
        value_of(r) == at(screens@, id_index(screens@, screen_id@, 0)),
{
    let mut i: usize = 0;
    while i < screens.len()
        invariant
            i <= screens@.len(),
            id_index(screens@, screen_id@, 0) == id_index(screens@, screen_id@, i as int),
        decreases screens@.len() - i,
    {
        if same_text(&screens[i].id, screen_id) {
            return Some(&screens[i]);
        }
        i += 1;
    }
    None
}

/// The display with this selection.
pub fn screen_by_selection_id<'a, T>(
    screens: &'a Vec<MacScreenSnapshot<T>>,
    selection_id: &str,
) -> (r: Option<&'a MacScreenSnapshot<T>>)
    ensures
        value_of(r) == at(screens@, selection_index(screens@, selection_id@, 0)),
{
    let mut i: usize = 0;
    while i < screens.len()
        invariant
            i <= screens@.len(),
            selection_index(screens@, selection_id@, 0) == selection_index(
                screens@,
                selection_id@,
                i as int,
            ),
        decreases screens@.len() - i,
    {
        if same_text(&screens[i].selection_id, selection_id) {
            return Some(&screens[i]);
        }
        i += 1;
    }
    None
}

/// The display of a Dock sample, or another one where it is not there.
pub fn resolve_dock_anchor_screen<'a, T>(
    screens: &'a Vec<MacScreenSnapshot<T>>,
    fallback_screen: &'a MacScreenSnapshot<T>,
    dock_sample: &DockPlacementSample<T>,
) -> (r: &'a MacScreenSnapshot<T>)
    ensures
        *r == preferred(
            screens@,
            *fallback_screen,
            Some(dock_sample@.dock.anchor_screen_id),
        ),
{
    match screen_by_id(screens, &dock_sample.dock_snapshot.anchor_screen_id) {
        Some(screen) => screen,
        None => fallback_screen,
    }
}

/// One pair of an order key and an identity comes after another.
pub open spec fn ranks_above(key: u32, id: Seq<char>, other_key: u32, other_id: Seq<char>) -> bool {
    key > other_key || (key == other_key && text::precedes(other_id, id))
}

/// The display at `i` is the greatest by scale and identity, and the last one of those.
pub open spec fn is_sharpest<T>(screens: Seq<MacScreenSnapshot<T>>, i: int) -> bool {
    &&& 0 <= i < screens.len()
    &&& forall|j: int|
        0 <= j < screens.len() ==> !ranks_above(
            (#[trigger] screens[j]).scale_bits,
            screens[j].id@,
            screens[i].scale_bits,
            screens[i].id@,
        )
    &&& forall|j: int|
        i < j < screens.len() ==> ranks_above(
            screens[i].scale_bits,
            screens[i].id@,
            (#[trigger] screens[j]).scale_bits,
            screens[j].id@,
        )
}

/// The display at `i` is the default one: the first main display, or where none is marked the
/// sharpest one.
pub open spec fn is_default<T>(screens: Seq<MacScreenSnapshot<T>>, i: int) -> bool {
    &&& 0 <= i < screens.len()
    &&& if exists|j: int| 0 <= j < screens.len() && (#[trigger] screens[j]).is_main {
        screens[i].is_main && forall|j: int| 0 <= j < i ==> !(#[trigger] screens[j]).is_main
    } else {
        is_sharpest(screens, i)
    }
}

fn ranks(key: u32, id: &str, other_key: u32, other_id: &str) -> (r: bool)
    ensures
        r == ranks_above(key, id@, other_key, other_id@),
{
    key > other_key || (key == other_key && text_precedes(other_id, id))
}

/// The default display; nothing where there is no display.
pub fn main_screen_snapshot<T>(screens: &Vec<MacScreenSnapshot<T>>) -> (r: Option<
    &MacScreenSnapshot<T>,
>)
    ensures
        match r {
            Some(screen) => exists|i: int|
                #![trigger is_default(screens@, i)]
                is_default(screens@, i) && screens@[i] == *screen,
            None => screens@.len() == 0,
        },
{
    let mut i: usize = 0;
    while i < screens.len()
        invariant
            i <= screens@.len(),
            forall|j: int| 0 <= j < i ==> !(#[trigger] screens@[j]).is_main,
        decreases screens@.len() - i,
    {
        if screens[i].is_main {
            proof {
                assert(is_default(screens@, i as int));
            }
            return Some(&screens[i]);
        }
        i += 1;
    }
    if screens.len() == 0 {
        return None;
    }
    let mut best: usize = 0;
    let mut k: usize = 1;
    proof {
        text::lemma_precedes_irreflexive(screens@[0].id@);
    }
    while k < screens.len()
        invariant
            screens@.len() > 0,
            best < k <= screens@.len(),
            forall|j: int|
                0 <= j < k ==> !ranks_above(
                    (#[trigger] screens@[j]).scale_bits,
                    screens@[j].id@,
                    screens@[best as int].scale_bits,
                    screens@[best as int].id@,
                ),
            forall|j: int|
                best < j < k ==> ranks_above(
                    screens@[best as int].scale_bits,
                    screens@[best as int].id@,
                    (#[trigger] screens@[j]).scale_bits,
                    screens@[j].id@,
                ),
        decreases screens@.len() - k,
    {
        let ghost old_best = best as int;
        if !ranks(
            screens[best].scale_bits,
            &screens[best].id,
            screens[k].scale_bits,
            &screens[k].id,
        ) {
            proof {
                let new = screens@[k as int];
                let prior = screens@[old_best];
                text::lemma_precedes_irreflexive(new.id@);
                text::lemma_precedes_total(prior.id@, new.id@);
                assert forall|j: int| 0 <= j < k + 1 implies !ranks_above(
                    (#[trigger] screens@[j]).scale_bits,
                    screens@[j].id@,
                    new.scale_bits,
                    new.id@,
                ) by {
                    let other = screens@[j];
                    if j < k && ranks_above(other.scale_bits, other.id@, new.scale_bits, new.id@)
                        && other.scale_bits == prior.scale_bits && new.scale_bits
                        == prior.scale_bits && prior.id@ != new.id@ {
                        text::lemma_precedes_transitive(prior.id@, new.id@, other.id@);
                    }
                }
            }
            best = k;
        } else {
            proof {
                let new = screens@[k as int];
                let prior = screens@[old_best];
                text::lemma_precedes_total(prior.id@, new.id@);
            }
        }
        k += 1;
    }
    proof {
        assert(is_sharpest(screens@, best as int));
        assert(is_default(screens@, best as int));
    }
    Some(&screens[best])
}

// ---------------------------------------------------------------------------
// The Dock at a side
// ---------------------------------------------------------------------------

/// How far the free part of a display is in from a side.
pub open spec fn inset<T>(screen: MacScreenSnapshot<T>, left: bool) -> u32 {
    if left {
        screen.left_inset_bits
    } else {
        screen.right_inset_bits
    }
}

/// The display is set in from that side by more than half a point.
pub open spec fn is_inset<T>(screen: MacScreenSnapshot<T>, left: bool) -> bool {
    inset(screen, left) > HALF_POINT_BITS
}

/// The display at `i` is the one that is set in most from a side; of equal ones it has the last
/// identity, and of those it is the last one.
pub open spec fn is_deepest<T>(screens: Seq<MacScreenSnapshot<T>>, left: bool, i: int) -> bool {
    &&& 0 <= i < screens.len()
    &&& is_inset(screens[i], left)
    &&& forall|j: int|
        0 <= j < screens.len() && is_inset(#[trigger] screens[j], left) ==> !ranks_above(
            inset(screens[j], left),
            screens[j].id@,
            inset(screens[i], left),
            screens[i].id@,
        )
    &&& forall|j: int|
        i < j < screens.len() && is_inset(#[trigger] screens[j], left) ==> ranks_above(
            inset(screens[i], left),
            screens[i].id@,
            inset(screens[j], left),
            screens[j].id@,
        )
}

/// `screen` is where a Dock at a side stands: the display that is set in most from that side, or
/// the fallback where none is.
pub open spec fn is_side_anchor<T>(
    screens: Seq<MacScreenSnapshot<T>>,
    fallback: MacScreenSnapshot<T>,
    orientation: Seq<char>,
    screen: MacScreenSnapshot<T>,
) -> bool {
    let left = orientation == "left"@;
    if (left || orientation == "right"@) && exists|j: int|
        0 <= j < screens.len() && is_inset(#[trigger] screens[j], left) {
        exists|i: int| #![trigger is_deepest(screens, left, i)] is_deepest(screens, left, i)
            && screens[i] == screen
    } else {
        screen == fallback
    }
}

fn inset_of<T>(screen: &MacScreenSnapshot<T>, left: bool) -> (r: u32)
    ensures
        r == inset(*screen, left),
{
    if left {
        screen.left_inset_bits
    } else {
        screen.right_inset_bits
    }
}

fn select_deepest<T>(screens: &Vec<MacScreenSnapshot<T>>, left: bool) -> (r: Option<usize>)
    ensures
        match r {
            Some(i) => is_deepest(screens@, left, i as int),
            None => forall|j: int|
                0 <= j < screens@.len() ==> !is_inset(#[trigger] screens@[j], left),
        },
{
    let mut best: Option<usize> = None;
    let mut k: usize = 0;
    while k < screens.len()
        invariant
            k <= screens@.len(),
            match best {
                Some(b) => {
                    &&& b < k
                    &&& is_inset(screens@[b as int], left)
                    &&& forall|j: int|
                        0 <= j < k && is_inset(#[trigger] screens@[j], left) ==> !ranks_above(
                            inset(screens@[j], left),
                            screens@[j].id@,
                            inset(screens@[b as int], left),
                            screens@[b as int].id@,
                        )
                    &&& forall|j: int|
                        b < j < k && is_inset(#[trigger] screens@[j], left) ==> ranks_above(
                            inset(screens@[b as int], left),
                            screens@[b as int].id@,
                            inset(screens@[j], left),
                            screens@[j].id@,
                        )
                },
                None => forall|j: int| 0 <= j < k ==> !is_inset(#[trigger] screens@[j], left),
            },
        decreases screens@.len() - k,
    {
        let key = inset_of(&screens[k], left);
        if key > HALF_POINT_BITS {
            let ghost new = screens@[k as int];
            proof {
                text::lemma_precedes_irreflexive(new.id@);
            }
            let keep = match best {
                Some(b) => {
                    proof {
                        let prior = screens@[b as int];
                        text::lemma_precedes_total(prior.id@, new.id@);
                        assert forall|j: int|
                            0 <= j < k && is_inset(#[trigger] screens@[j], left)
                                && !ranks_above(
                                inset(prior, left),
                                prior.id@,
                                inset(new, left),
                                new.id@,
                            ) implies !ranks_above(
                            inset(screens@[j], left),
                            screens@[j].id@,
                            inset(new, left),
                            new.id@,
                        ) by {
                            let other = screens@[j];
                            if inset(other, left) == inset(prior, left) && inset(new, left)
                                == inset(prior, left) && prior.id@ != new.id@
                                && text::precedes(new.id@, other.id@) {
                                text::lemma_precedes_transitive(prior.id@, new.id@, other.id@);
                            }
                        }
                    }
                    ranks(inset_of(&screens[b], left), &screens[b].id, key, &screens[k].id)
                },
                None => false,
            };
            if !keep {
                best = Some(k);
            }
        }
        k += 1;
    }
    best
}

/// The display of a Dock at a side.
pub fn select_side_dock_anchor_screen<'a, T>(
    screens: &'a Vec<MacScreenSnapshot<T>>,
    fallback_screen: &'a MacScreenSnapshot<T>,
    orientation: &str,
) -> (r: &'a MacScreenSnapshot<T>)
    ensures
        is_side_anchor(screens@, *fallback_screen, orientation@, *r),
{
    let left = same_text(orientation, "left");
    if left || same_text(orientation, "right") {
        match select_deepest(screens, left) {
            Some(i) => {
                proof {
                    assert(is_deepest(screens@, left, i as int));
                    assert(is_inset(screens@[i as int], left));
                }
                &screens[i]
            },
            None => fallback_screen,
        }
    } else {
        fallback_screen
    }
}

/// The fallback for a Dock at a side: the display where it was last, if that is still there.
pub open spec fn preferred<T>(
    screens: Seq<MacScreenSnapshot<T>>,
    fallback: MacScreenSnapshot<T>,
    id: Option<Seq<char>>,
) -> MacScreenSnapshot<T> {
    match id {
        Some(wanted) => match at(screens, id_index(screens, wanted, 0)) {
            Some(screen) => screen,
            None => fallback,
        },
        None => fallback,
    }
}

/// The display of a Dock at a side, which stays where it was while it hides.
pub fn select_side_dock_anchor_screen_with_preference<'a, T>(
    screens: &'a Vec<MacScreenSnapshot<T>>,
    fallback_screen: &'a MacScreenSnapshot<T>,
    preferred_anchor_screen_id: Option<&str>,
    orientation: &str,
) -> (r: &'a MacScreenSnapshot<T>)
    ensures
        is_side_anchor(
            screens@,
            preferred(screens@, *fallback_screen, text::text_view(preferred_anchor_screen_id)),
            orientation@,
            *r,
        ),
{
    let fallback = match preferred_anchor_screen_id {
        Some(id) => match screen_by_id(screens, id) {
            Some(screen) => screen,
            None => fallback_screen,
        },
        None => fallback_screen,
    };
    select_side_dock_anchor_screen(screens, fallback, orientation)
}

/// Where the Dock is.
#[derive(Debug)]
pub enum DockPlace<'a, T> {
    /// At a side of a display.
    Side(&'a MacScreenSnapshot<T>),
    /// At the bottom of a display, where it was found.
    Found(&'a MacScreenSnapshot<T>),
    /// At the bottom of a display, where it is only supposed.
    Supposed(&'a MacScreenSnapshot<T>),
}

/// Finds the display of the Dock. `side` is the side that it is at, if it is not at the bottom;
/// `found_on` is the display on which it was found at the bottom.
pub fn find_dock_screen<'a, T>(
    screens: &'a Vec<MacScreenSnapshot<T>>,
    anchor_screen: &'a MacScreenSnapshot<T>,
    preferred_anchor_screen_id: Option<&str>,
    side: Option<&str>,
    found_on: Option<&str>,
) -> (r: DockPlace<'a, T>)
    ensures
        match r {
            DockPlace::Side(screen) => side is Some && is_side_anchor(
                screens@,
                preferred(screens@, *anchor_screen, text::text_view(preferred_anchor_screen_id)),
                side->0@,
                *screen,
            ),
            DockPlace::Found(screen) => side is None && found_on is Some && *screen == preferred(
                screens@,
                *anchor_screen,
                Some(found_on->0@),
            ),
            DockPlace::Supposed(screen) => side is None && found_on is None && *screen
                == *anchor_screen,
        },
{
    match side {
        Some(orientation) => DockPlace::Side(
            select_side_dock_anchor_screen_with_preference(
                screens,
                anchor_screen,
                preferred_anchor_screen_id,
                orientation,
            ),
        ),
        None => match found_on {
            Some(id) => DockPlace::Found(
                match screen_by_id(screens, id) {
                    Some(screen) => screen,
                    None => anchor_screen,
                },
            ),
            None => DockPlace::Supposed(anchor_screen),
        },
    }
}

// ---------------------------------------------------------------------------
// The chosen display
// ---------------------------------------------------------------------------

/// The sample with the Dock out of the way: the cats walk in the free part of a display.
pub open spec fn floor_sample<T>(screen: MacScreenSnapshot<T>, autohide: bool) -> SampleView<T> {
    SampleView {
        dock: cat_layout::DockView {
            anchor_screen_id: screen.id@,
            dock_frame: None,
            walk_bounds: None,
            mode: DockPlacementMode::Floor,
            autohide,
        },
        walk_bounds: screen.visible_frame,
    }
}

/// Samples a display whose Dock is out of the way.
pub fn build_floor_mode_sample<T: Copy>(anchor_screen: &MacScreenSnapshot<T>, autohide: bool) -> (r:
    DockPlacementSample<T>)
    ensures
        r@ == floor_sample(*anchor_screen, autohide),
{
    DockPlacementSample {
        dock_snapshot: DockSnapshot::side(
            &anchor_screen.id,
            DockPlacementMode::Floor,
            autohide,
        ),
        walk_bounds: anchor_screen.visible_frame,
    }
}

/// The sample with the Dock at the bottom of a display.
pub open spec fn bottom_sample<T>(
    screen: MacScreenSnapshot<T>,
    dock_frame: Rect<T>,
    walk_bounds: Rect<T>,
    autohide: bool,
) -> SampleView<T> {
    SampleView {
        dock: cat_layout::DockView {
            anchor_screen_id: screen.id@,
            dock_frame: Some(dock_frame),
            walk_bounds: Some(walk_bounds),
            mode: DockPlacementMode::Bottom,
            autohide,
        },
        walk_bounds,
    }
}

/// Samples a display with the Dock at its bottom.
pub fn build_bottom_mode_sample<T: Copy>(
    anchor_screen: &MacScreenSnapshot<T>,
    dock_frame: Rect<T>,
    walk_bounds: Rect<T>,
    autohide: bool,
) -> (r: DockPlacementSample<T>)
    ensures
        r@ == bottom_sample(*anchor_screen, dock_frame, walk_bounds, autohide),
{
    DockPlacementSample {
        dock_snapshot: DockSnapshot::bottom_with_walk_bounds(
            &anchor_screen.id,
            dock_frame,
            walk_bounds,
            autohide,
        ),
        walk_bounds,
    }
}

/// The choice that holds: a chosen display that is not there is no choice.
pub open spec fn resolved_mode<T>(screens: Seq<MacScreenSnapshot<T>>, mode: ModeView) -> ModeView {
    match mode {
        ModeView::Auto => ModeView::Auto,
        ModeView::Specific(id) => if selection_index(screens, id, 0) is Some {
            mode
        } else {
            ModeView::Auto
        },
    }
}

/// The choice that holds for these displays.
pub fn resolve_display_location_mode<T>(
    screens: &Vec<MacScreenSnapshot<T>>,
    requested_mode: DisplayLocationMode,
) -> (r: DisplayLocationMode)
    ensures
        r@ == resolved_mode(screens@, requested_mode@),
{
    match requested_mode {
        DisplayLocationMode::Auto => DisplayLocationMode::Auto,
        DisplayLocationMode::Specific(id) => {
            if screen_by_selection_id(screens, &id).is_some() {
                DisplayLocationMode::Specific(id)
            } else {
                DisplayLocationMode::Auto
            }
        },
    }
}

/// The sample that holds under a choice: the Dock's own, but for a chosen display that the Dock
/// is not on.
pub open spec fn resolved_sample<T>(
    screens: Seq<MacScreenSnapshot<T>>,
    auto: SampleView<T>,
    mode: ModeView,
) -> SampleView<T> {
    match mode {
        ModeView::Auto => auto,
        ModeView::Specific(id) => match at(screens, selection_index(screens, id, 0)) {
            Some(selected) => match at(screens, id_index(screens, auto.dock.anchor_screen_id, 0)) {
                Some(dock_screen) => if dock_screen.selection_id@ == selected.selection_id@ {
                    auto
                } else {
                    floor_sample(selected, auto.dock.autohide)
                },
                None => auto,
            },
            None => auto,
        },
    }
}

fn copy_sample<T: Copy>(sample: &DockPlacementSample<T>) -> (r: DockPlacementSample<T>)
    ensures
        r@ == sample@,
{
    DockPlacementSample {
        dock_snapshot: DockSnapshot {
            anchor_screen_id: sample.dock_snapshot.anchor_screen_id.clone(),
            dock_frame: sample.dock_snapshot.dock_frame,
            walk_bounds: sample.dock_snapshot.walk_bounds,
            mode: sample.dock_snapshot.mode,
            autohide: sample.dock_snapshot.autohide,
        },
        walk_bounds: sample.walk_bounds,
    }
}

/// The sample that holds under a choice.
pub fn resolve_display_location_dock_sample<T: Copy>(
    screens: &Vec<MacScreenSnapshot<T>>,
    auto_sample: &DockPlacementSample<T>,
    display_location_mode: &DisplayLocationMode,
) -> (r: DockPlacementSample<T>)
    ensures
        r@ == resolved_sample(screens@, auto_sample@, display_location_mode@),
{
    match display_location_mode {
        DisplayLocationMode::Auto => copy_sample(auto_sample),
        DisplayLocationMode::Specific(id) => match screen_by_selection_id(screens, id) {
            Some(selected) => match screen_by_id(
                screens,
                &auto_sample.dock_snapshot.anchor_screen_id,
            ) {
                Some(dock_screen) => {
                    if same_text(&dock_screen.selection_id, &selected.selection_id) {
                        copy_sample(auto_sample)
                    } else {
                        build_floor_mode_sample(selected, auto_sample.dock_snapshot.autohide)
                    }
                },
                None => copy_sample(auto_sample),
            },
            None => copy_sample(auto_sample),
        },
    }
}

proof fn lemma_selection_index<T>(
    screens: Seq<MacScreenSnapshot<T>>,
    selection: Seq<char>,
    from: int,
)
    requires
        0 <= from <= screens.len(),
    ensures
        match selection_index(screens, selection, from) {
            Some(i) => from <= i < screens.len() && screens[i].selection_id@ == selection,
            None => forall|j: int|
                from <= j < screens.len() ==> (#[trigger] screens[j]).selection_id@ != selection,
        },
    decreases screens.len() - from,
{
    if from < screens.len() && screens[from].selection_id@ != selection {
        lemma_selection_index(screens, selection, from + 1);
    }
}

/// A choice holds just as long as the chosen display is there; resolving it again changes
/// nothing.
pub proof fn law_choice_falls_back_when_display_is_gone<T>(
    screens: Seq<MacScreenSnapshot<T>>,
    selection: Seq<char>,
)
    ensures
        resolved_mode(screens, ModeView::Specific(selection)) == (if exists|i: int|
            0 <= i < screens.len() && (#[trigger] screens[i]).selection_id@ == selection {
            ModeView::Specific(selection)
        } else {
            ModeView::Auto
        }),
        resolved_mode(screens, resolved_mode(screens, ModeView::Specific(selection)))
            == resolved_mode(screens, ModeView::Specific(selection)),
{
    lemma_selection_index(screens, selection, 0);
}

/// A chosen display that the Dock is not on puts the cats on its floor; under any other choice
/// they follow the Dock.
pub proof fn law_choice_moves_cats_only_off_the_dock<T>(
    screens: Seq<MacScreenSnapshot<T>>,
    auto: SampleView<T>,
    selection: Seq<char>,
    selected: int,
    dock: int,
)
    requires
        selection_index(screens, selection, 0) == Some(selected),
        id_index(screens, auto.dock.anchor_screen_id, 0) == Some(dock),
    ensures
        resolved_sample(screens, auto, ModeView::Auto) == auto,
        screens[dock].selection_id@ == selection ==> resolved_sample(
            screens,
            auto,
            ModeView::Specific(selection),
        ) == auto,
        screens[dock].selection_id@ != selection ==> resolved_sample(
            screens,
            auto,
            ModeView::Specific(selection),
        ) == floor_sample(screens[selected], auto.dock.autohide),
{
    lemma_selection_index(screens, selection, 0);
}

// ---------------------------------------------------------------------------
// The display menu
// ---------------------------------------------------------------------------

/// The number of displays with this name among the first `n`.
pub open spec fn named_count<T>(screens: Seq<MacScreenSnapshot<T>>, name: Seq<char>, n: int) -> nat
    decreases n,
{
    if n <= 0 || n > screens.len() {
        0
    } else {
        named_count(screens, name, n - 1) + (if screens[n - 1].name@ == name {
            1nat
        } else {
            0nat
        })
    }
}

/// The name with a number.
pub open spec fn numbered(name: Seq<char>, n: nat) -> Seq<char> {
    name + " #"@ + text::decimal(n)
}

/// The name with this number is the name of a display.
pub open spec fn is_taken<T>(screens: Seq<MacScreenSnapshot<T>>, name: Seq<char>, n: nat) -> bool {
    exists|i: int| 0 <= i < screens.len() && (#[trigger] screens[i]).name@ == numbered(name, n)
}

/// The first number from `from` on that is not taken, found in at most `tries` steps.
pub open spec fn next_number<T>(
    screens: Seq<MacScreenSnapshot<T>>,
    name: Seq<char>,
    from: nat,
    tries: nat,
) -> nat
    decreases tries,
{
    if tries == 0 || !is_taken(screens, name, from) {
        from
    } else {
        next_number(screens, name, from + 1, (tries - 1) as nat)
    }
}

/// The number of the `k`-th display of a name: the next one after that of the display before it
/// that is not taken. As many steps as there are displays are enough to find it.
pub open spec fn label_number<T>(
    screens: Seq<MacScreenSnapshot<T>>,
    name: Seq<char>,
    k: nat,
) -> nat
    decreases k,
{
    if k == 0 {
        0
    } else {
        next_number(
            screens,
            name,
            label_number(screens, name, (k - 1) as nat) + 1,
            screens.len(),
        )
    }
}

/// The label of a display: its name, with a number where several have that name.
pub open spec fn display_label<T>(screens: Seq<MacScreenSnapshot<T>>, i: int) -> Seq<char> {
    let name = screens[i].name@;
    if named_count(screens, name, screens.len() as int) > 1 {
        numbered(name, label_number(screens, name, named_count(screens, name, i + 1)))
    } else {
        name
    }
}

/// The lines of the display menu.
pub open spec fn menu_choices<T>(screens: Seq<MacScreenSnapshot<T>>) -> Seq<ChoiceView> {
    Seq::new(
        screens.len(),
        |i: int|
            ChoiceView {
                selection_id: screens[i].selection_id@,
                label: display_label(screens, i),
                is_main: screens[i].is_main,
            },
    )
}

proof fn lemma_named_count_grows<T>(
    screens: Seq<MacScreenSnapshot<T>>,
    name: Seq<char>,
    m: int,
    n: int,
)
    requires
        0 <= m <= n <= screens.len(),
    ensures
        named_count(screens, name, m) <= named_count(screens, name, n),
    decreases n - m,
{
    if m < n {
        lemma_named_count_grows(screens, name, m, n - 1);
    }
}

/// The number of numbers up to `n` that are taken.
spec fn taken_count<T>(screens: Seq<MacScreenSnapshot<T>>, name: Seq<char>, n: nat) -> nat
    decreases n,
{
    if n == 0 {
        0
    } else {
        taken_count(screens, name, (n - 1) as nat) + (if is_taken(screens, name, n) {
            1nat
        } else {
            0nat
        })
    }
}

/// A display has the name with a number up to `n`.
spec fn takes<T>(screen: MacScreenSnapshot<T>, name: Seq<char>, n: nat) -> bool {
    exists|m: nat| 1 <= m <= n && screen.name@ == #[trigger] numbered(name, m)
}

/// The number of displays among the first `s` that have the name with a number up to `n`.
spec fn takers<T>(screens: Seq<MacScreenSnapshot<T>>, name: Seq<char>, n: nat, s: int) -> nat
    decreases s,
{
    if s <= 0 || s > screens.len() {
        0
    } else {
        takers(screens, name, n, s - 1) + (if takes(screens[s - 1], name, n) {
            1nat
        } else {
            0nat
        })
    }
}

proof fn lemma_numbered_injective(a: Seq<char>, m: nat, b: Seq<char>, n: nat)
    requires
        numbered(a, m) == numbered(b, n),
    ensures
        a == b,
        m == n,
{
    let x = numbered(a, m);
    let dm = text::decimal(m);
    let dn = text::decimal(n);
    text::lemma_decimal_value(m);
    text::lemma_decimal_value(n);
    reveal_strlit(" #");
    assert(x[x.len() - dm.len() - 1] == '#');
    assert(x[x.len() - dn.len() - 1] == '#');
    if dm.len() < dn.len() {
        let k = dn.len() - dm.len() - 1;
        assert(dn[k] == x[x.len() - dm.len() - 1]);
        assert(text::is_digit(dn[k]));
    }
    if dn.len() < dm.len() {
        let k = dm.len() - dn.len() - 1;
        assert(dm[k] == x[x.len() - dn.len() - 1]);
        assert(text::is_digit(dm[k]));
    }
    assert(x.subrange(0, a.len() as int) =~= a);
    assert(x.subrange(0, b.len() as int) =~= b);
    assert(x.skip(x.len() - dm.len()) =~= dm);
    assert(x.skip(x.len() - dn.len()) =~= dn);
}

/// One more number is taken by at least one display more.
proof fn lemma_takers_grow<T>(
    screens: Seq<MacScreenSnapshot<T>>,
    name: Seq<char>,
    n: nat,
    s: int,
    i: int,
)
    requires
        0 < n,
        0 <= s <= screens.len(),
        0 <= i < screens.len(),
        screens[i].name@ == numbered(name, n),
    ensures
        takers(screens, name, n, s) >= takers(screens, name, (n - 1) as nat, s) + (if i < s {
            1nat
        } else {
            0nat
        }),
    decreases s,
{
    if s > 0 {
        lemma_takers_grow(screens, name, n, s - 1, i);
        let before = (n - 1) as nat;
        if takes(screens[s - 1], name, before) {
            let m = choose|m: nat|
                1 <= m <= before && screens[s - 1].name@ == #[trigger] numbered(name, m);
            assert(screens[s - 1].name@ == numbered(name, m));
            assert(takes(screens[s - 1], name, n));
            if s - 1 == i {
                lemma_numbered_injective(name, m, name, n);
            }
        }
        if s - 1 == i {
            assert(takes(screens[i], name, n));
        }
    }
}

/// No more takers with a smaller number.
proof fn lemma_takers_monotone<T>(
    screens: Seq<MacScreenSnapshot<T>>,
    name: Seq<char>,
    n: nat,
    s: int,
)
    requires
        0 < n,
        0 <= s <= screens.len(),
    ensures
        takers(screens, name, (n - 1) as nat, s) <= takers(screens, name, n, s),
    decreases s,
{
    if s > 0 {
        lemma_takers_monotone(screens, name, n, s - 1);
        let before = (n - 1) as nat;
        if takes(screens[s - 1], name, before) {
            let m = choose|m: nat|
                1 <= m <= before && screens[s - 1].name@ == #[trigger] numbered(name, m);
            assert(screens[s - 1].name@ == numbered(name, m));
            assert(takes(screens[s - 1], name, n));
        }
    }
}

/// A display that takes a number of a name does not have that name.
proof fn lemma_takers_are_others<T>(
    screens: Seq<MacScreenSnapshot<T>>,
    name: Seq<char>,
    n: nat,
    s: int,
)
    requires
        0 <= s <= screens.len(),
    ensures
        takers(screens, name, n, s) + named_count(screens, name, s) <= s,
    decreases s,
{
    if s > 0 {
        lemma_takers_are_others(screens, name, n, s - 1);
        if takes(screens[s - 1], name, n) {
            let m = choose|m: nat|
                1 <= m <= n && screens[s - 1].name@ == #[trigger] numbered(name, m);
            reveal_strlit(" #");
            assert(screens[s - 1].name@.len() > name.len());
        }
    }
}

/// The numbers that are taken and the displays of the name are no more than all displays.
proof fn lemma_taken_bound<T>(screens: Seq<MacScreenSnapshot<T>>, name: Seq<char>, n: nat)
    ensures
        taken_count(screens, name, n) <= takers(screens, name, n, screens.len() as int),
        taken_count(screens, name, n) + named_count(screens, name, screens.len() as int)
            <= screens.len(),
    decreases n,
{
    let all = screens.len() as int;
    if n > 0 {
        lemma_taken_bound(screens, name, (n - 1) as nat);
        if is_taken(screens, name, n) {
            let i = choose|i: int|
                0 <= i < screens.len() && (#[trigger] screens[i]).name@ == numbered(name, n);
            lemma_takers_grow(screens, name, n, all, i);
        } else {
            lemma_takers_monotone(screens, name, n, all);
        }
    }
    lemma_takers_are_others(screens, name, n, all);
}

/// A number that was searched for long enough is free.
proof fn lemma_next_number<T>(
    screens: Seq<MacScreenSnapshot<T>>,
    name: Seq<char>,
    from: nat,
    tries: nat,
    k: nat,
)
    requires
        1 <= from,
        k <= named_count(screens, name, screens.len() as int),
        from == k + taken_count(screens, name, (from - 1) as nat),
        from + tries > screens.len(),
    ensures
        ({
            let r = next_number(screens, name, from, tries);
            &&& from <= r <= screens.len()
            &&& !is_taken(screens, name, r)
            &&& r == k + taken_count(screens, name, r)
        }),
    decreases tries,
{
    lemma_taken_bound(screens, name, (from - 1) as nat);
    lemma_taken_bound(screens, name, from);
    if is_taken(screens, name, from) {
        lemma_next_number(screens, name, from + 1, (tries - 1) as nat, k);
    }
}

proof fn lemma_label_number<T>(screens: Seq<MacScreenSnapshot<T>>, name: Seq<char>, k: nat)
    requires
        k <= named_count(screens, name, screens.len() as int),
    ensures
        ({
            let r = label_number(screens, name, k);
            &&& r <= screens.len()
            &&& r == k + taken_count(screens, name, r)
            &&& k > 0 ==> !is_taken(screens, name, r)
        }),
    decreases k,
{
    if k > 0 {
        let before = (k - 1) as nat;
        lemma_label_number(screens, name, before);
        lemma_next_number(
            screens,
            name,
            label_number(screens, name, before) + 1,
            screens.len(),
            k,
        );
    }
}

proof fn lemma_label_numbers_grow<T>(
    screens: Seq<MacScreenSnapshot<T>>,
    name: Seq<char>,
    k: nat,
    l: nat,
)
    requires
        k < l <= named_count(screens, name, screens.len() as int),
    ensures
        label_number(screens, name, k) < label_number(screens, name, l),
    decreases l,
{
    let before = (l - 1) as nat;
    lemma_label_number(screens, name, before);
    lemma_next_number(screens, name, label_number(screens, name, before) + 1, screens.len(), l);
    if k < before {
        lemma_label_numbers_grow(screens, name, k, before);
    }
}

/// Two places in a sequence with the same name make two displays of it.
proof fn lemma_namesakes_counted<T>(screens: Seq<MacScreenSnapshot<T>>, i: int)
    requires
        0 <= i < screens.len(),
    ensures
        ({
            let name = screens[i].name@;
            &&& named_count(screens, name, i + 1) == named_count(screens, name, i) + 1
            &&& named_count(screens, name, i + 1) <= named_count(
                screens,
                name,
                screens.len() as int,
            )
        }),
{
    lemma_named_count_grows(screens, screens[i].name@, i + 1, screens.len() as int);
}

/// Any two displays have different labels.
pub proof fn law_labels_tell_displays_apart<T>(
    screens: Seq<MacScreenSnapshot<T>>,
    i: int,
    j: int,
)
    requires
        0 <= i < j < screens.len(),
    ensures
        display_label(screens, i) != display_label(screens, j),
{
    let a = screens[i].name@;
    let b = screens[j].name@;
    let all = screens.len() as int;
    lemma_namesakes_counted(screens, i);
    lemma_namesakes_counted(screens, j);
    let k = named_count(screens, a, i + 1);
    let l = named_count(screens, b, j + 1);
    let m = label_number(screens, a, k);
    let n = label_number(screens, b, l);
    lemma_label_number(screens, a, k);
    lemma_label_number(screens, b, l);
    if a == b {
        lemma_named_count_grows(screens, a, i + 1, j);
        lemma_label_numbers_grow(screens, a, k, l);
        if numbered(a, m) == numbered(b, n) {
            lemma_numbered_injective(a, m, b, n);
        }
    } else if numbered(a, m) == numbered(b, n) {
        lemma_numbered_injective(a, m, b, n);
    }
    if display_label(screens, i) == b {
        assert(display_label(screens, i) == numbered(a, m) ==> is_taken(screens, a, m));
    }
    if display_label(screens, j) == a {
        assert(display_label(screens, j) == numbered(b, n) ==> is_taken(screens, b, n));
    }
}

/// A display whose name no other one has is labelled with its name.
pub proof fn law_single_name_is_the_label<T>(screens: Seq<MacScreenSnapshot<T>>, i: int)
    requires
        0 <= i < screens.len(),
        forall|j: int|
            0 <= j < screens.len() && j != i ==> (#[trigger] screens[j]).name@ != screens[i].name@,
    ensures
        display_label(screens, i) == screens[i].name@,
{
    lemma_single_count(screens, i, screens.len() as int);
}

proof fn lemma_single_count<T>(screens: Seq<MacScreenSnapshot<T>>, i: int, n: int)
    requires
        0 <= i < screens.len(),
        0 <= n <= screens.len(),
        forall|j: int|
            0 <= j < screens.len() && j != i ==> (#[trigger] screens[j]).name@ != screens[i].name@,
    ensures
        named_count(screens, screens[i].name@, n) <= 1,
        n <= i ==> named_count(screens, screens[i].name@, n) == 0,
    decreases n,
{
    if n > 0 {
        lemma_single_count(screens, i, n - 1);
        if n - 1 != i {
            assert(screens[n - 1].name@ != screens[i].name@);
        } else {
            lemma_single_count(screens, i, i);
        }
    }
}

fn test_taken<T>(screens: &Vec<MacScreenSnapshot<T>>, label: &str) -> (r: bool)
    ensures
        r == exists|i: int| 0 <= i < screens@.len() && (#[trigger] screens@[i]).name@ == label@,
{
    let mut i: usize = 0;
    while i < screens.len()
        invariant
            i <= screens@.len(),
            forall|j: int| 0 <= j < i ==> (#[trigger] screens@[j]).name@ != label@,
        decreases screens@.len() - i,
    {
        if same_text(&screens[i].name, label) {
            return true;
        }
        i += 1;
    }
    false
}

/// The name with the number of the `k`-th display of that name.
fn number_label<T>(screens: &Vec<MacScreenSnapshot<T>>, name: &str, k: usize) -> (r: String)
    requires
        1 <= k <= named_count(screens@, name@, screens@.len() as int),
    ensures
        r@ == numbered(name@, label_number(screens@, name@, k as nat)),
{
    let total = screens.len();
    let mut number: usize = 0;
    let mut j: usize = 0;
    let mut label = String::new();
    while j < k
        invariant
            total == screens@.len(),
            j <= k <= named_count(screens@, name@, screens@.len() as int),
            number == label_number(screens@, name@, j as nat),
            j > 0 ==> label@ == numbered(name@, number as nat),
        decreases k - j,
    {
        proof {
            lemma_label_number(screens@, name@, j as nat);
            lemma_taken_bound(screens@, name@, number as nat);
        }
        let from: usize = number + 1;
        number = from;
        label = concat3(name, " #", text::decimal_text(number as u64).as_str());
        while test_taken(screens, &label)
            invariant
                total == screens@.len(),
                j < k <= named_count(screens@, name@, screens@.len() as int),
                1 <= from <= number <= screens@.len(),
                number == j + 1 + taken_count(screens@, name@, (number - 1) as nat),
                label@ == numbered(name@, number as nat),
                next_number(
                    screens@,
                    name@,
                    number as nat,
                    (screens@.len() - (number - from)) as nat,
                ) == next_number(screens@, name@, from as nat, screens@.len()),
            decreases screens@.len() - number,
        {
            proof {
                assert(is_taken(screens@, name@, number as nat));
                lemma_taken_bound(screens@, name@, number as nat);
            }
            number += 1;
            label = concat3(name, " #", text::decimal_text(number as u64).as_str());
        }
        j += 1;
    }
    label
}

fn count_named<T>(screens: &Vec<MacScreenSnapshot<T>>, name: &str, n: usize) -> (r: usize)
    requires
        n <= screens@.len(),
    ensures
        r == named_count(screens@, name@, n as int),
{
    let mut found: usize = 0;
    let mut i: usize = 0;
    while i < n
        invariant
            i <= n <= screens@.len(),
            found <= i,
            found == named_count(screens@, name@, i as int),
        decreases n - i,
    {
        if same_text(&screens[i].name, name) {
            found += 1;
        }
        i += 1;
    }
    found
}

/// The lines of the display menu for these displays.
pub fn display_choices_from_screens<T>(screens: &Vec<MacScreenSnapshot<T>>) -> (r: Vec<
    DisplayChoice,
>)
    ensures
        choice_views(r@) == menu_choices(screens@),
{
    let mut out: Vec<DisplayChoice> = Vec::new();
    let mut i: usize = 0;
    while i < screens.len()
        invariant
            i <= screens@.len(),
            out@.len() == i,
            forall|j: int| 0 <= j < i ==> (#[trigger] out@[j])@ == menu_choices(screens@)[j],
        decreases screens@.len() - i,
    {
        let name = &screens[i].name;
        proof {
            lemma_namesakes_counted(screens@, i as int);
        }
        let label = if count_named(screens, name, screens.len()) > 1 {
            number_label(screens, name, count_named(screens, name, i + 1))
        } else {
            name.clone()
        };
        out.push(
            DisplayChoice {
                selection_id: screens[i].selection_id.clone(),
                label,
                is_main: screens[i].is_main,
            },
        );
        i += 1;
    }
    proof {
        assert(choice_views(out@) =~= menu_choices(screens@));
    }
    out
}

/// The lines of the display menu; none where the displays could not be sampled.
pub fn current_display_choices<T>(sampled: &Option<Vec<MacScreenSnapshot<T>>>) -> (r: Vec<
    DisplayChoice,
>)
    ensures
        choice_views(r@) == (match sampled {
            Some(screens) => menu_choices(screens@),
            None => Seq::empty(),
        }),
{
    match sampled {
        Some(screens) => display_choices_from_screens(screens),
        None => {
            let none: Vec<DisplayChoice> = Vec::new();
            proof {
                assert(choice_views(none@) =~= Seq::empty());
            }
            none
        },
    }
}

// ---------------------------------------------------------------------------
// Laws
// ---------------------------------------------------------------------------

proof fn lemma_id_index<T>(screens: Seq<MacScreenSnapshot<T>>, id: Seq<char>, from: int)
    requires
        0 <= from <= screens.len(),
    ensures
        match id_index(screens, id, from) {
            Some(i) => from <= i < screens.len() && screens[i].id@ == id && forall|j: int|
                from <= j < i ==> (#[trigger] screens[j]).id@ != id,
            None => forall|j: int| from <= j < screens.len() ==> (#[trigger] screens[j]).id@ != id,
        },
    decreases screens.len() - from,
{
    if from < screens.len() && screens[from].id@ != id {
        lemma_id_index(screens, id, from + 1);
    }
}

proof fn lemma_selection_index_first<T>(
    screens: Seq<MacScreenSnapshot<T>>,
    selection: Seq<char>,
    from: int,
    i: int,
)
    requires
        0 <= from <= i < screens.len(),
        screens[i].selection_id@ == selection,
        forall|j: int| from <= j < i ==> (#[trigger] screens[j]).selection_id@ != selection,
    ensures
        selection_index(screens, selection, from) == Some(i),
    decreases i - from,
{
    if from < i {
        assert(screens[from].selection_id@ != selection);
        lemma_selection_index_first(screens, selection, from + 1, i);
    }
}

/// A display is found by its identity or by its selection, the first one where several have it;
/// none is found that does not have it.
pub proof fn law_first_display_is_found<T>(
    screens: Seq<MacScreenSnapshot<T>>,
    wanted: Seq<char>,
    i: int,
)
    requires
        0 <= i < screens.len(),
    ensures
        screens[i].id@ == wanted && (forall|j: int|
            0 <= j < i ==> (#[trigger] screens[j]).id@ != wanted) ==> at(
            screens,
            id_index(screens, wanted, 0),
        ) == Some(screens[i]),
        screens[i].selection_id@ == wanted && (forall|j: int|
            0 <= j < i ==> (#[trigger] screens[j]).selection_id@ != wanted) ==> at(
            screens,
            selection_index(screens, wanted, 0),
        ) == Some(screens[i]),
        (forall|j: int| 0 <= j < screens.len() ==> (#[trigger] screens[j]).id@ != wanted) ==> at(
            screens,
            id_index(screens, wanted, 0),
        ) is None,
        (forall|j: int| 0 <= j < screens.len() ==> (#[trigger] screens[j]).selection_id@ != wanted)
            ==> at(screens, selection_index(screens, wanted, 0)) is None,
{
    lemma_id_index(screens, wanted, 0);
    lemma_selection_index(screens, wanted, 0);
    if screens[i].selection_id@ == wanted && (forall|j: int|
        0 <= j < i ==> (#[trigger] screens[j]).selection_id@ != wanted) {
        lemma_selection_index_first(screens, wanted, 0, i);
    }
}

/// The main display is the default one, the first where several are marked. Without one it is the
/// display of the greatest scale; of equal scales the one with the last identity; of equal
/// identities the last one.
pub proof fn law_default_display<T>(screens: Seq<MacScreenSnapshot<T>>, i: int, j: int)
    requires
        is_default(screens, i),
        0 <= j < screens.len(),
    ensures
        screens[j].is_main ==> screens[i].is_main && i <= j,
        !screens[i].is_main ==> screens[j].scale_bits <= screens[i].scale_bits,
        !screens[i].is_main && screens[j].scale_bits == screens[i].scale_bits ==> screens[j].id@
            == screens[i].id@ || text::precedes(screens[j].id@, screens[i].id@),
        !screens[i].is_main && screens[j].scale_bits == screens[i].scale_bits && screens[j].id@
            == screens[i].id@ ==> j <= i,
        is_default(screens, j) ==> i == j,
{
    text::lemma_precedes_total(screens[i].id@, screens[j].id@);
    text::lemma_precedes_irreflexive(screens[i].id@);
    if screens[i].is_main {
        assert(exists|k: int| 0 <= k < screens.len() && (#[trigger] screens[k]).is_main);
    }
    if screens[j].is_main {
        assert(exists|k: int| 0 <= k < screens.len() && (#[trigger] screens[k]).is_main);
    }
    if is_default(screens, j) {
        if exists|k: int| 0 <= k < screens.len() && (#[trigger] screens[k]).is_main {
            if i < j {
                assert(!screens[i].is_main);
            }
            if j < i {
                assert(!screens[j].is_main);
            }
        } else {
            if i < j {
                assert(ranks_above(
                    screens[i].scale_bits,
                    screens[i].id@,
                    screens[j].scale_bits,
                    screens[j].id@,
                ));
            }
            if j < i {
                assert(ranks_above(
                    screens[j].scale_bits,
                    screens[j].id@,
                    screens[i].scale_bits,
                    screens[i].id@,
                ));
            }
        }
    }
}

/// A Dock at a side stands on the display that is set in most from that very side, by more than half
/// a point; where none is, or at no side, it stands on the fallback.
pub proof fn law_side_dock_stands_where_it_takes_room<T>(
    screens: Seq<MacScreenSnapshot<T>>,
    fallback: MacScreenSnapshot<T>,
    screen: MacScreenSnapshot<T>,
    orientation: Seq<char>,
    j: int,
)
    requires
        is_side_anchor(screens, fallback, orientation, screen),
        0 <= j < screens.len(),
    ensures
        orientation == "left"@ && screens[j].left_inset_bits > 0x3f00_0000 ==> screens.contains(
            screen,
        ) && screen.left_inset_bits >= screens[j].left_inset_bits,
        orientation == "right"@ && screens[j].right_inset_bits > 0x3f00_0000 ==> screens.contains(
            screen,
        ) && screen.right_inset_bits >= screens[j].right_inset_bits,
        orientation == "left"@ && screens[j].left_inset_bits == screen.left_inset_bits
            && screens[j].left_inset_bits > 0x3f00_0000 ==> !text::precedes(
            screen.id@,
            screens[j].id@,
        ),
        orientation == "right"@ && screens[j].right_inset_bits == screen.right_inset_bits
            && screens[j].right_inset_bits > 0x3f00_0000 ==> !text::precedes(
            screen.id@,
            screens[j].id@,
        ),
        orientation == "left"@ && (forall|k: int|
            0 <= k < screens.len() ==> (#[trigger] screens[k]).left_inset_bits <= 0x3f00_0000)
            ==> screen == fallback,
        orientation == "right"@ && (forall|k: int|
            0 <= k < screens.len() ==> (#[trigger] screens[k]).right_inset_bits <= 0x3f00_0000)
            ==> screen == fallback,
        orientation != "left"@ && orientation != "right"@ ==> screen == fallback,
{
    reveal_strlit("left");
    reveal_strlit("right");
    assert("left"@.len() != "right"@.len());
    let left = orientation == "left"@;
    if (left || orientation == "right"@) && is_inset(screens[j], left) {
        let i = choose|i: int|
            #![trigger is_deepest(screens, left, i)]
            is_deepest(screens, left, i) && screens[i] == screen;
        assert(is_deepest(screens, left, i));
        assert(screens[i] == screen);
    }
}

/// The fallback is where the Dock was last, as long as that display is there.
pub proof fn law_dock_stays_where_it_was<T>(
    screens: Seq<MacScreenSnapshot<T>>,
    fallback: MacScreenSnapshot<T>,
    id: Seq<char>,
    i: int,
)
    requires
        0 <= i < screens.len(),
    ensures
        preferred(screens, fallback, None) == fallback,
        screens[i].id@ == id && (forall|j: int| 0 <= j < i ==> (#[trigger] screens[j]).id@ != id)
            ==> preferred(screens, fallback, Some(id)) == screens[i],
        (forall|j: int| 0 <= j < screens.len() ==> (#[trigger] screens[j]).id@ != id) ==> preferred(
            screens,
            fallback,
            Some(id),
        ) == fallback,
{
    law_first_display_is_found(screens, id, i);
}

/// On the floor of a display the cats walk in its free part, and no Dock is in their way.
pub proof fn law_floor_is_the_free_part<T>(screen: MacScreenSnapshot<T>, autohide: bool)
    ensures
        floor_sample(screen, autohide).walk_bounds == screen.visible_frame,
        floor_sample(screen, autohide).dock.anchor_screen_id == screen.id@,
        floor_sample(screen, autohide).dock.mode == DockPlacementMode::Floor,
        floor_sample(screen, autohide).dock.dock_frame is None,
        floor_sample(screen, autohide).dock.walk_bounds is None,
        floor_sample(screen, autohide).dock.autohide == autohide,
{
}

/// A choice of a display that is not there, or while the display of the Dock is not, leaves the cats
/// with the Dock.
pub proof fn law_without_displays_the_cats_follow_the_dock<T>(
    screens: Seq<MacScreenSnapshot<T>>,
    auto: SampleView<T>,
    selection: Seq<char>,
)
    requires
        (forall|i: int|
            0 <= i < screens.len() ==> (#[trigger] screens[i]).selection_id@ != selection) || (
        forall|i: int|
            0 <= i < screens.len() ==> (#[trigger] screens[i]).id@ != auto.dock.anchor_screen_id),
    ensures
        resolved_sample(screens, auto, ModeView::Specific(selection)) == auto,
{
    lemma_selection_index(screens, selection, 0);
    lemma_id_index(screens, auto.dock.anchor_screen_id, 0);
}

/// The menu has a line for each display, in their order, with its selection and whether it is the
/// main one.
pub proof fn law_menu_offers_every_display<T>(screens: Seq<MacScreenSnapshot<T>>, i: int)
    ensures
        menu_choices(screens).len() == screens.len(),
        0 <= i < screens.len() ==> menu_choices(screens)[i].selection_id == screens[i].selection_id@
            && menu_choices(screens)[i].is_main == screens[i].is_main && menu_choices(
            screens,
        )[i].label == display_label(screens, i),
{
}

/// The displays of one name are counted in their order.
pub proof fn law_namesakes_are_counted<T>(
    screens: Seq<MacScreenSnapshot<T>>,
    name: Seq<char>,
    n: int,
)
    requires
        0 <= n < screens.len(),
    ensures
        screens[n].name@ == name ==> named_count(screens, name, n + 1) == named_count(
            screens,
            name,
            n,
        ) + 1,
        screens[n].name@ != name ==> named_count(screens, name, n + 1) == named_count(
            screens,
            name,
            n,
        ),
        named_count(screens, name, 0) == 0,
{
}

proof fn lemma_free_numbers<T>(screens: Seq<MacScreenSnapshot<T>>, name: Seq<char>, k: nat)
    requires
        forall|n: nat| !#[trigger] is_taken(screens, name, n),
    ensures
        label_number(screens, name, k) == k,
    decreases k,
{
    if k > 0 {
        lemma_free_numbers(screens, name, (k - 1) as nat);
        assert(!is_taken(screens, name, k));
    }
}

/// A display that shares its name is labelled with the name, a number sign and a number from one
/// on, and no display has that label for a name. Where no display has a name of that form, the
/// number is how many displays of the name there are up to it.
pub proof fn law_namesakes_are_numbered<T>(screens: Seq<MacScreenSnapshot<T>>, i: int, j: int)
    requires
        0 <= i < screens.len(),
        0 <= j < screens.len(),
        i != j,
        screens[i].name@ == screens[j].name@,
    ensures
        exists|n: nat|
            n >= 1 && display_label(screens, i) == screens[i].name@ + " #"@ + #[trigger] text::decimal(
                n,
            ),
        forall|k: int|
            0 <= k < screens.len() ==> (#[trigger] screens[k]).name@ != display_label(screens, i),
        (forall|n: nat| !#[trigger] is_taken(screens, screens[i].name@, n)) ==> display_label(
            screens,
            i,
        ) == screens[i].name@ + " #"@ + text::decimal(
            named_count(screens, screens[i].name@, i + 1),
        ),
{
    let name = screens[i].name@;
    let all = screens.len() as int;
    let (a, b) = if i < j {
        (i, j)
    } else {
        (j, i)
    };
    lemma_namesakes_counted(screens, i);
    lemma_namesakes_counted(screens, j);
    lemma_named_count_grows(screens, name, a + 1, b);
    assert(named_count(screens, name, all) > 1);
    let k = named_count(screens, name, i + 1);
    lemma_label_number(screens, name, k);
    let n = label_number(screens, name, k);
    assert(n >= 1);
    assert(display_label(screens, i) == name + " #"@ + text::decimal(n));
    assert(!is_taken(screens, name, n));
    if forall|n: nat| !#[trigger] is_taken(screens, name, n) {
        lemma_free_numbers(screens, name, k);
    }
}

/// With the Dock at the bottom of a display the window stands on the Dock and the cats walk where
/// they are let, on that display.
pub proof fn law_bottom_sample_is_walked_on<T>(
    screen: MacScreenSnapshot<T>,
    screens: Seq<cat_layout::ScreenSnapshot<T>>,
    i: int,
    dock_frame: Rect<T>,
    walk_bounds: Rect<T>,
    autohide: bool,
)
    requires
        0 <= i < screens.len(),
        screens[i].id@ == screen.id@,
    ensures
        ({
            let sample = bottom_sample(screen, dock_frame, walk_bounds, autohide);
            &&& sample.walk_bounds == walk_bounds
            &&& cat_layout::ground(screens, sample.dock) == Some(dock_frame)
            &&& cat_layout::walkway(dock_frame, sample.dock) == walk_bounds
            &&& sample.dock.autohide == autohide
            &&& sample.dock.mode == DockPlacementMode::Bottom
        }),
{
    let sample = bottom_sample(screen, dock_frame, walk_bounds, autohide);
    cat_layout::law_bottom_dock_is_the_ground(screens, sample.dock, i, dock_frame);
}

/// There is one display that is set in most from a side.
pub proof fn law_one_display_is_set_in_most<T>(
    screens: Seq<MacScreenSnapshot<T>>,
    left: bool,
    i: int,
    j: int,
)
    requires
        is_deepest(screens, left, i),
        is_deepest(screens, left, j),
    ensures
        i == j,
{
    if i < j {
        assert(is_inset(screens[j], left));
    }
    if j < i {
        assert(is_inset(screens[i], left));
    }
}

} // verus!
