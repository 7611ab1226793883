//! Small pieces of the screens' look.
use vstd::prelude::*;

verus! {

/// The border character shown at animation step `counter`: the steps
/// cycle through four pictures.
pub open spec fn border_char(counter: u8) -> Seq<char> {
    let k = counter % 4;
    if k == 0 {
        "═"@
    } else if k == 2 {
        "≣"@
    } else {
        "≡"@
    }
}

/// The border character for animation step `counter`.
pub fn get_animated_border_char(counter: u8) -> (s: &'static str)
    ensures
        s@ == border_char(counter),
{
    let k = counter % 4;
    if k == 0 {
        "═"
    } else if k == 2 {
        "≣"
    } else {
        "≡"
    }
}

/// The animation clock of the screens: a step counter that moves on, in a
/// cycle of eight, at most once every 200 milliseconds.
#[derive(Debug, Clone, Copy, PartialEq, Eq, Structural)]
pub struct AnimationClock {
    pub counter: u8,
    pub last_update: Option<u64>,
}

/// The clock after a look at time `now` (milliseconds): the first look only
/// starts it; later, once 200 milliseconds have passed since the last step,
/// the counter moves on by one.
pub open spec fn ticked_clock(c: AnimationClock, now: u64) -> AnimationClock {
    match c.last_update {
        None => AnimationClock { last_update: Some(now), ..c },
        Some(last) => if now >= last && now - last >= 200 {
            AnimationClock { counter: ((c.counter + 1) % 8) as u8, last_update: Some(now) }
        } else {
            c
        },
    }
}

impl AnimationClock {
    /// A clock that has not started.
    pub fn new() -> (c: AnimationClock)
        ensures
            c == (AnimationClock { counter: 0, last_update: None }),
    {
        AnimationClock { counter: 0, last_update: None }
    }

    /// Looks at the clock at time `now` and returns the step to show.
    pub fn update_animation(&mut self, now: u64) -> (step: u8)
        requires
            old(self).counter < 8,
        ensures
            *final(self) == ticked_clock(*old(self), now),
            step == final(self).counter,
    {
        match self.last_update {
            None => {
                self.last_update = Some(now);
            },
            Some(last) => {
                if now >= last && now - last >= 200 {
                    self.counter = (self.counter + 1) % 8;
                    self.last_update = Some(now);
                }
            },
        }
        self.counter
    }
}

/// The step shown is always one of the eight of the cycle, whatever the
/// looks at the clock.
pub proof fn law_animation_step_in_cycle(c: AnimationClock, now: u64)
    requires
        c.counter < 8,
    ensures
        ticked_clock(c, now).counter < 8,
{
}

} // verus!
