//! What happens to a cat that is dragged and let go.

use vstd::prelude::*;

verus! {

/// The nanoseconds that a cat takes to fall back.
pub const FALL_NANOS: u64 = 250_000_000;

/// Whether a cat is held, and when and from what height it began to fall.
#[derive(Clone, Copy, PartialEq, Debug)]
pub struct DragState<H> {
    pub is_dragging: bool,
    pub snap_back_start: Option<(u64, H)>,
}

/// Where a cat is in its fall.
#[derive(Clone, Copy, PartialEq, Debug)]
pub enum Fall<H> {
    /// It does not fall.
    Still,
    /// It falls since some nanoseconds, from a height.
    Falling(u64, H),
    /// It has come down.
    Landed,
}

impl<H: Copy> DragState<H> {
    /// A cat on its feet.
    pub fn new() -> (r: DragState<H>)
        ensures
            !r.is_dragging,
            r.snap_back_start is None,
    {
        DragState { is_dragging: false, snap_back_start: None }
    }

    /// The cat is held or falls, and stands still meanwhile.
    pub open spec fn held(self) -> bool {
        self.is_dragging || self.snap_back_start is Some
    }

    /// Whether the cat is held or falls.
    pub fn is_held(&self) -> (r: bool)
        ensures
            r == self.held(),
    {
        self.is_dragging || self.snap_back_start.is_some()
    }

    /// The cat when it is dragged.
    pub open spec fn caught(self) -> DragState<H> {
        DragState { is_dragging: true, snap_back_start: None }
    }

    /// The cat is dragged. It can be caught while it falls.
    pub fn dragged(&mut self)
        ensures
            *final(self) == old(self).caught(),
    {
        self.is_dragging = true;
        self.snap_back_start = None;
    }

    /// The cat when it is let go.
    pub open spec fn released(self, lifted: bool, height: H, now: u64) -> DragState<H> {
        DragState {
            is_dragging: false,
            snap_back_start: if lifted {
                Some((now, height))
            } else {
                self.snap_back_start
            },
        }
    }

    /// The cat is let go. It falls where it is `lifted` off its ground.
    pub fn drag_stopped(&mut self, lifted: bool, height: H, now: u64)
        ensures
            *final(self) == old(self).released(lifted, height, now),
    {
        self.is_dragging = false;
        if lifted {
            self.snap_back_start = Some((now, height));
        }
    }

    /// Where the cat is in its fall at a time.
    pub open spec fn fall_at(self, now: u64) -> Fall<H> {
        match self.snap_back_start {
            None => Fall::Still,
            Some((start, height)) => if now - start >= FALL_NANOS {
                Fall::Landed
            } else {
                Fall::Falling(
                    if now > start {
                        (now - start) as u64
                    } else {
                        0
                    },
                    height,
                )
            },
        }
    }

    /// The cat after its fall at a time.
    pub open spec fn after_fall(self, now: u64) -> DragState<H> {
        DragState {
            is_dragging: self.is_dragging,
            snap_back_start: if self.fall_at(now) is Landed {
                None
            } else {
                self.snap_back_start
            },
        }
    }

    /// Lets the cat fall on to a time.
    pub fn fall(&mut self, now: u64) -> (r: Fall<H>)
        ensures
            r == old(self).fall_at(now),
            *final(self) == old(self).after_fall(now),
    {
        match self.snap_back_start {
            None => Fall::Still,
            Some((start, height)) => {
                let elapsed = if now > start {
                    now - start
                } else {
                    0
                };
                if elapsed >= FALL_NANOS {
                    self.snap_back_start = None;
                    Fall::Landed
                } else {
                    Fall::Falling(elapsed, height)
                }
            },
        }
    }
}

/// A cat that was let go is on its feet again once the time of a fall is over.
pub proof fn law_a_fall_ends<H: Copy>(before: DragState<H>, now: u64)
    requires
        !before.is_dragging,
        match before.snap_back_start {
            Some((start, height)) => now - start >= FALL_NANOS,
            None => true,
        },
    ensures
        !before.after_fall(now).held(),
{
}

/// A cat that is let go in the air falls for a quarter of a second from the height at which it was
/// let go, and then stands; one that is let go on its ground stands at once.
pub proof fn law_a_lifted_cat_falls<H: Copy>(
    before: DragState<H>,
    other: H,
    height: H,
    start: u64,
    now: u64,
)
    requires
        start <= now,
    ensures
        ({
            let fallen = before.released(true, height, start);
            &&& fallen.held() && !fallen.is_dragging
            &&& now - start < 250_000_000 ==> fallen.fall_at(now) == Fall::Falling(
                (now - start) as u64,
                height,
            ) && fallen.after_fall(now) == fallen
            &&& now - start >= 250_000_000 ==> fallen.fall_at(now) == Fall::<H>::Landed
                && !fallen.after_fall(now).held()
        }),
        ({
            let stood = before.caught().released(false, other, start);
            &&& !stood.held()
            &&& stood.fall_at(now) == Fall::<H>::Still
            &&& stood.after_fall(now) == stood
        }),
{
}

/// A cat that is dragged is held, and does not fall, whether it fell before or not.
pub proof fn law_a_dragged_cat_does_not_fall<H: Copy>(before: DragState<H>, now: u64)
    ensures
        before.caught().held(),
        before.caught().is_dragging,
        before.caught().fall_at(now) == Fall::<H>::Still,
        before.caught().caught() == before.caught(),
{
}

/// A cat is held exactly if it is dragged or falls.
pub proof fn law_held_means_dragged_or_falling<H: Copy>(cat: DragState<H>, now: u64)
    ensures
        !cat.held() <==> !cat.is_dragging && cat.fall_at(now) is Still,
        cat.fall_at(now) is Still <==> cat.snap_back_start is None,
{
}

} // verus!
