//! Decisions of the animation loop: which frame to draw on which screen, when
//! to publish and how long to sleep, and when to stop. Whoever runs the loop
//! performs the actions and reports whether cancellation was asked for.
use vstd::prelude::*;

use crate::wallpapers::Wallpapers;

verus! {

/// Phases of the animation loop.
#[derive(Clone, Copy, Debug, PartialEq, Eq, Structural)]
pub enum Phase {
    /// Frames are drawn, tick after tick.
    Running,
    /// Cancellation was observed; everything is being released.
    Stopping,
    /// Released; nothing is left to do.
    Stopped,
}

/// What the loop is to do next.
#[derive(Clone, Copy, Debug, PartialEq, Eq, Structural)]
pub enum Action {
    /// Put frame `frame` of the frames of screen `screen` onto the drawable.
    Draw { screen: usize, frame: usize },
    /// Publish the drawable as background and have it redrawn.
    Publish,
    /// Sleep for `ms` milliseconds.
    Sleep { ms: u64 },
    /// Release all frames and the background registrations.
    Release,
    /// Nothing is left to do.
    Done,
}

/// State of the animation loop. One frame index is shared by all screens.
#[derive(Clone, Copy, Debug, PartialEq, Eq, Structural)]
pub struct Animation {
    pub phase: Phase,
    /// Global frame index of the current tick.
    pub index: usize,
    /// Next screen to draw in the current tick.
    pub next_screen: usize,
    /// Whether the current tick was published.
    pub published: bool,
    /// Delay of the frame drawn last, in milliseconds.
    pub delay_ms: u64,
}

/// The state the loop starts in.
pub open spec fn initial_animation() -> Animation {
    Animation { phase: Phase::Running, index: 0, next_screen: 0, published: false, delay_ms: 0 }
}

/// The frame index after a tick.
pub open spec fn next_index(index: usize) -> usize {
    if index < usize::MAX {
        (index + 1) as usize
    } else {
        0
    }
}

/// Whether cancellation is looked at in this state: at the top of a tick,
/// and before each screen is drawn.
pub open spec fn at_poll_point(a: Animation, screens: nat) -> bool {
    a.next_screen < screens || (a.next_screen == 0 && !a.published)
}

/// One step of the loop: the next state and the action to perform.
///
/// In a tick each screen in turn gets the frame at the shared index; where
/// its frames are too few, the index restarts at zero for the rest of the
/// tick. After all screens are drawn, the drawable is published, then the
/// loop sleeps for the delay of the frame drawn last, and the index advances.
pub open spec fn transition(a: Animation, w: Wallpapers, cancelled: bool) -> (Animation, Action) {
    let screens = w.screens_view().len();
    match a.phase {
        Phase::Stopped => (a, Action::Done),
        Phase::Stopping => (Animation { phase: Phase::Stopped, ..a }, Action::Done),
        Phase::Running => if cancelled && at_poll_point(a, screens) {
            (Animation { phase: Phase::Stopping, ..a }, Action::Release)
        } else if a.next_screen < screens {
            let s = a.next_screen;
            let frames = w.sets_view()[w.screens_view()[s as int].frameset as int].frames@;
            let index = if frames.len() <= a.index {
                0usize
            } else {
                a.index
            };
            (
                Animation {
                    index,
                    next_screen: (s + 1) as usize,
                    delay_ms: frames[index as int].delay_ms,
                    ..a
                },
                Action::Draw { screen: s, frame: index },
            )
        } else if !a.published {
            (Animation { published: true, ..a }, Action::Publish)
        } else {
            (
                Animation { index: next_index(a.index), next_screen: 0, published: false, ..a },
                Action::Sleep { ms: a.delay_ms },
            )
        },
    }
}

impl Animation {
    /// The state fits the wallpapers it animates.
    pub open spec fn wf(&self, w: &Wallpapers) -> bool {
        self.next_screen <= w.screens_view().len()
    }

    /// The state the loop starts in.
    pub fn new() -> (r: Animation)
        ensures
            r == initial_animation(),
    {
        Animation { phase: Phase::Running, index: 0, next_screen: 0, published: false, delay_ms: 0 }
    }

    /// Takes one step of the loop: `cancelled` tells whether cancellation was
    /// asked for. Returns the action to perform.
    pub fn next(&mut self, wallpapers: &Wallpapers, cancelled: bool) -> (r: Action)
        requires
            wallpapers.wf(),
            old(self).wf(wallpapers),
        ensures
            (*final(self), r) == transition(*old(self), *wallpapers, cancelled),
            final(self).wf(wallpapers),
    {
        let screens = wallpapers.screen_count();
        match self.phase {
            Phase::Stopped => Action::Done,
            Phase::Stopping => {
                self.phase = Phase::Stopped;
                Action::Done
            },
            Phase::Running => {
                let poll = self.next_screen < screens || (self.next_screen == 0 && !self.published);
                if cancelled && poll {
                    self.phase = Phase::Stopping;
                    Action::Release
                } else if self.next_screen < screens {
                    let s = self.next_screen;
                    let frames = wallpapers.frames_of(s);
                    proof {
                        let k = wallpapers.screens_view()[s as int].frameset as int;
                        assert(wallpapers.sets_view()[k].frames@.len() > 0);
                    }
                    if frames.len() <= self.index {
                        self.index = 0;
                    }
                    self.delay_ms = frames[self.index].delay_ms;
                    self.next_screen = s + 1;
                    Action::Draw { screen: s, frame: self.index }
                } else if !self.published {
                    self.published = true;
                    Action::Publish
                } else {
                    let ms = self.delay_ms;
                    self.index = if self.index < usize::MAX {
                        self.index + 1
                    } else {
                        0
                    };
                    self.next_screen = 0;
                    self.published = false;
                    Action::Sleep { ms }
                }
            },
        }
    }
}

/// Cancelled before the first frame is drawn, the loop draws nothing: it
/// releases everything at once, and then is done for good.
pub proof fn lemma_cancel_before_first_draw(w: Wallpapers, later: bool)
    requires
        w.wf(),
    ensures
        transition(initial_animation(), w, true).1 == Action::Release,
        transition(transition(initial_animation(), w, true).0, w, later).1 == Action::Done,
        transition(transition(initial_animation(), w, true).0, w, later).0.phase == Phase::Stopped,
{
}

} // verus!
