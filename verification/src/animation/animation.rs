//! Colour animations in steps: each step shows its colour for a while, then
//! moves to the next step's colour, possibly only once it has been
//! triggered. Time is read from the system clock; the blending of two
//! colours is left to the colour type.

use std::time::Duration;
use vstd::prelude::*;

use crate::config::Rgba;
use crate::time::{as_nanos, duration_nanos, elapsed, now};

verus! {

/// How a transition moves from one colour to the next.
#[derive(Debug, Clone, Copy, PartialEq, Eq, Structural)]
pub enum Easing {
    EaseOut,
}

/// The move from one step's colour to the next: how long it takes, its
/// easing, and whether it waits for a trigger (and has had it).
pub struct Transition {
    pub duration: Duration,
    pub easing: Easing,
    pub trigger_required: bool,
    pub triggered: bool,
}

impl Transition {
    /// A transition that has not been triggered yet.
    pub fn new(duration: Duration, easing: Easing, trigger_required: bool) -> (t: Self)
        ensures
            t.duration == duration,
            t.easing == easing,
            t.trigger_required == trigger_required,
            !t.triggered,
    {
        Transition { duration, easing, trigger_required, triggered: false }
    }

    /// The transition waits for a trigger it has not had yet.
    pub open spec fn is_waiting(&self) -> bool {
        self.trigger_required && !self.triggered
    }
}

/// A colour that an animation moves between. Implementors say how a colour
/// is made from 8-bit channels, and which colour a transition from `from` to
/// `to` shows `elapsed_nanos` into its `duration_nanos`, with the given
/// easing.
pub trait AnimationColor: Copy {
    fn from_rgba(color: Rgba) -> Self;

    fn transition_color(
        from: Self,
        to: Self,
        elapsed_nanos: u128,
        duration_nanos: u128,
        easing: Easing,
    ) -> Self;
}

/// A step of an animation: its colour, how long it shows it, and the
/// transition to the next step.
pub struct AnimationStep<C> {
    pub color: C,
    pub duration: Duration,
    pub transition: Transition,
}

/// A run through colour steps, timed by the system clock.
pub struct Animation<C> {
    pub current_color: C,
    timer: instant::Instant,
    timer_offset_nanos: u128,
    steps: Vec<AnimationStep<C>>,
    current_step_index: usize,
    pub concluded: bool,
}

/// The time a step takes before the next one starts: its own duration,
/// plus its transition's unless it is the last step or the transition
/// waits for a trigger.
pub open spec fn step_total_nanos<C>(steps: Seq<AnimationStep<C>>, index: int) -> int {
    let step = steps[index];
    if index != steps.len() - 1 && !step.transition.is_waiting() {
        duration_nanos(step.duration) + duration_nanos(step.transition.duration)
    } else {
        duration_nanos(step.duration) as int
    }
}

/// The time a step takes before the next starts is never less than its own
/// duration; a step that is not the last and whose transition does not wait
/// for a trigger takes its duration and then its transition's duration, and
/// any other step takes its duration alone.
pub proof fn law_step_time<C>(steps: Seq<AnimationStep<C>>, index: int)
    requires
        0 <= index < steps.len(),
    ensures
        step_total_nanos(steps, index) >= duration_nanos(steps[index].duration),
        index < steps.len() - 1 && !(steps[index].transition.trigger_required
            && !steps[index].transition.triggered) ==> step_total_nanos(steps, index)
            == duration_nanos(steps[index].duration) + duration_nanos(
            steps[index].transition.duration,
        ),
        index == steps.len() - 1 || (steps[index].transition.trigger_required
            && !steps[index].transition.triggered) ==> step_total_nanos(steps, index)
            == duration_nanos(steps[index].duration),
{
}

/// The colour that step `i` of `steps` shows `elapsed` nanoseconds after it
/// started: its own colour within its duration, when it is the last step,
/// or while its transition waits for a trigger; otherwise a colour that the
/// colour type's `transition_color` may give for the step's colour, the next
/// step's colour, the time past the step's duration, the transition's
/// duration and its easing.
pub open spec fn color_after<C: AnimationColor>(steps: Seq<AnimationStep<C>>, i: int, elapsed: u128, c: C) -> bool {
    let step = steps[i];
    if elapsed < duration_nanos(step.duration) || i == steps.len() - 1 || step.transition.is_waiting() {
        c == step.color
    } else {
        call_ensures(
            C::transition_color,
            (
                step.color,
                steps[i + 1].color,
                (elapsed - duration_nanos(step.duration)) as u128,
                duration_nanos(step.transition.duration),
                step.transition.easing,
            ),
            c,
        )
    }
}

/// `after` is `before` with the current step's transition triggered if it
/// waits for a trigger: the same step and colour and conclusion, the same
/// steps but for the current one's `triggered` flag, which is set when the
/// transition requires a trigger. A trigger restarts the clock with the
/// step's whole duration counted as passed; otherwise the clock is left
/// alone.
pub open spec fn is_triggered_from<C>(after: Animation<C>, before: Animation<C>) -> bool {
    &&& after.step_index() == before.step_index()
    &&& after.shown_color() == before.shown_color()
    &&& after.is_concluded() == before.is_concluded()
    &&& after.step_seq().len() == before.step_seq().len()
    &&& forall|i: int|
        0 <= i < before.step_seq().len() && i != before.step_index()
            ==> #[trigger] after.step_seq()[i] == before.step_seq()[i]
    &&& ({
        let b = before.step_seq()[before.step_index()];
        let a = after.step_seq()[before.step_index()];
        &&& a.color == b.color
        &&& a.duration == b.duration
        &&& a.transition.duration == b.transition.duration
        &&& a.transition.easing == b.transition.easing
        &&& a.transition.trigger_required == b.transition.trigger_required
        &&& a.transition.triggered == (b.transition.triggered || b.transition.trigger_required)
        &&& b.transition.is_waiting() ==> after.timer_offset() == duration_nanos(b.duration)
        &&& !b.transition.is_waiting() ==> after.timer_of() == before.timer_of()
            && after.timer_offset() == before.timer_offset()
    })
}

impl<C> Animation<C> {
    /// The steps.
    pub closed spec fn step_seq(&self) -> Seq<AnimationStep<C>> {
        self.steps@
    }

    /// The clock reading at which the current step's time is counted from.
    pub closed spec fn timer_of(&self) -> instant::Instant {
        self.timer
    }

    /// The time counted as passed in the current step when the clock was
    /// started, in nanoseconds.
    pub closed spec fn timer_offset(&self) -> u128 {
        self.timer_offset_nanos
    }

    /// The colour being shown.
    pub closed spec fn shown_color(&self) -> C {
        self.current_color
    }

    /// Whether the animation has concluded.
    pub closed spec fn is_concluded(&self) -> bool {
        self.concluded
    }

    /// The index of the step being shown.
    pub closed spec fn step_index(&self) -> int {
        self.current_step_index as int
    }

    /// The step index is that of a step, unless there is none.
    pub closed spec fn wf(&self) -> bool {
        if self.steps@.len() == 0 {
            self.current_step_index == 0
        } else {
            self.current_step_index < self.steps@.len()
        }
    }

    /// An animation at its first step, showing `start_color` until its first
    /// update, with its clock started now.
    pub fn new(steps: Vec<AnimationStep<C>>, start_color: C) -> (a: Self)
        ensures
            a.wf(),
            a.step_seq() == steps@,
            a.step_index() == 0,
            a.shown_color() == start_color,
            !a.is_concluded(),
    {
        Animation {
            current_color: start_color,
            timer: now(),
            timer_offset_nanos: 0,
            steps,
            current_step_index: 0,
            concluded: false,
        }
    }

    /// The colour being shown.
    pub fn color(&self) -> (c: C)
        where
            C: Copy,
        ensures
            c == self.shown_color(),
    {
        self.current_color
    }

    /// Whether the animation has concluded.
    pub fn has_concluded(&self) -> (b: bool)
        ensures
            b == self.is_concluded(),
    {
        self.concluded
    }

    /// The current step is the last one.
    fn is_last_step(&self) -> (b: bool)
        requires
            self.steps@.len() > 0,
        ensures
            b == (self.current_step_index == self.steps@.len() - 1),
    {
        self.current_step_index == self.steps.len() - 1
    }

    /// Triggers the current step's transition if it waits for one: the step
    /// then counts as having shown its colour for its whole duration.
    pub fn trigger_transition(&mut self)
        requires
            old(self).wf(),
            old(self).step_seq().len() > 0,
        ensures
            final(self).wf(),
            is_triggered_from(*final(self), *old(self)),
    {
        let index = self.current_step_index;
        let step = &mut self.steps[index];
        if step.transition.trigger_required && !step.transition.triggered {
            step.transition.triggered = true;
            let offset = as_nanos(&step.duration);
            self.timer = now();
            self.timer_offset_nanos = offset;
        }
    }
}

impl<C: AnimationColor> Animation<C> {
    /// Shows the colour for the current time and moves on to the next steps
    /// whose time is up. Without steps the animation is concluded at once.
    /// The colour is the current step's, but after its duration, when a
    /// next step exists and its transition does not wait for a trigger: then
    /// it is the colour type's blend towards the next step's colour. The
    /// animation concludes on an update that starts at the last step.
    pub fn update(&mut self)
        requires
            old(self).wf(),
        ensures
            final(self).wf(),
            final(self).step_seq() == old(self).step_seq(),
            old(self).step_seq().len() == 0 ==> final(self).is_concluded() && final(self).shown_color()
                == old(self).shown_color(),
            old(self).step_seq().len() > 0 ==> ({
                let steps = old(self).step_seq();
                let i = old(self).step_index();
                &&& i <= final(self).step_index() < steps.len()
                &&& final(self).is_concluded() == (old(self).is_concluded() || i == steps.len() - 1)
                &&& (i == steps.len() - 1 ==> final(self).step_index() == i)
                &&& (i == steps.len() - 1 || steps[i].transition.is_waiting()
                    ==> final(self).shown_color() == steps[i].color)
                &&& exists|elapsed: u128| color_after(steps, i, elapsed, #[trigger] final(self).shown_color())
            }),
    {
        if self.steps.len() == 0 {
            self.concluded = true;
            return;
        }
        self.update_color();
        let ghost e = choose|e: u128|
            color_after(old(self).steps@, old(self).current_step_index as int, e, self.current_color);
        let _ = self.advance_step_if_needed();
        assert(color_after(old(self).steps@, old(self).current_step_index as int, e, self.shown_color()));
    }

    /// Sets the colour for the current step at the current time.
    fn update_color(&mut self)
        requires
            old(self).wf(),
            old(self).steps@.len() > 0,
        ensures
            final(self).steps@ == old(self).steps@,
            final(self).current_step_index == old(self).current_step_index,
            final(self).concluded == old(self).concluded,
            final(self).timer_offset_nanos == old(self).timer_offset_nanos,
            final(self).timer == old(self).timer,
            exists|elapsed: u128|
                color_after(
                    old(self).steps@,
                    old(self).current_step_index as int,
                    elapsed,
                    #[trigger] final(self).current_color,
                ),
    {
        let elapsed = self.elapsed_nanos_checked();
        self.update_color_at(elapsed);
    }

    /// Sets the colour that the current step shows `elapsed` nanoseconds
    /// after it started: the step's own colour within its duration, on the
    /// last step, or while its transition waits for a trigger; otherwise the
    /// colour type's blend towards the next step's colour.
    fn update_color_at(&mut self, elapsed: u128)
        requires
            old(self).wf(),
            old(self).steps@.len() > 0,
        ensures
            final(self).steps@ == old(self).steps@,
            final(self).current_step_index == old(self).current_step_index,
            final(self).concluded == old(self).concluded,
            final(self).timer_offset_nanos == old(self).timer_offset_nanos,
            final(self).timer == old(self).timer,
            color_after(old(self).steps@, old(self).current_step_index as int, elapsed, final(self).current_color),
    {
        let index = self.current_step_index;
        let step_duration = as_nanos(&self.steps[index].duration);
        if elapsed < step_duration {
            self.current_color = self.steps[index].color;
        } else if !self.is_last_step() {
            if self.steps[index].transition.trigger_required && !self.steps[index].transition.triggered {
                // Waiting for the trigger: the colour stays the step's.
                self.current_color = self.steps[index].color;
            } else {
                self.current_color = self.calculate_transition_color(elapsed - step_duration);
            }
        } else {
            self.current_color = self.steps[index].color;
        }
    }

    /// The blend towards the next step's colour, `elapsed_after_step`
    /// nanoseconds into the transition: what the colour type's
    /// `transition_color` gives for the step's colour, the next step's
    /// colour, that time, the transition's duration and its easing.
    fn calculate_transition_color(&self, elapsed_after_step: u128) -> (c: C)
        requires
            self.wf(),
            self.current_step_index + 1 < self.steps@.len(),
        ensures
            ({
                let step = self.steps@[self.current_step_index as int];
                call_ensures(
                    C::transition_color,
                    (
                        step.color,
                        self.steps@[self.current_step_index + 1].color,
                        elapsed_after_step,
                        duration_nanos(step.transition.duration),
                        step.transition.easing,
                    ),
                    c,
                )
            }),
    {
        let index = self.current_step_index;
        let len = self.steps.len();
        assert(index + 1 < len);
        let step = &self.steps[index];
        let transition_duration = as_nanos(&step.transition.duration);
        let next_color = self.steps[index + 1].color;
        C::transition_color(
            step.color,
            next_color,
            elapsed_after_step,
            transition_duration,
            step.transition.easing,
        )
    }

    /// Moves on while the current step's time is up, restarting the clock at
    /// each new step; concludes when the current step is the last. Returns
    /// the first clock reading of the step: a step that is not the last
    /// moves on exactly when that reading has reached the time the step
    /// takes, its duration plus, unless it waits for a trigger, its
    /// transition.
    fn advance_step_if_needed(&mut self) -> (first: Ghost<u128>)
        requires
            old(self).wf(),
            old(self).steps@.len() > 0,
        ensures
            final(self).wf(),
            final(self).steps@ == old(self).steps@,
            final(self).current_color == old(self).current_color,
            old(self).current_step_index <= final(self).current_step_index,
            old(self).current_step_index == old(self).steps@.len() - 1 ==> final(self).concluded
                && final(self).current_step_index == old(self).current_step_index,
            old(self).current_step_index != old(self).steps@.len() - 1 ==> final(self).concluded
                == old(self).concluded,
            old(self).current_step_index != old(self).steps@.len() - 1 ==> (final(self).current_step_index
                > old(self).current_step_index <==> first@ >= step_total_nanos(
                old(self).steps@,
                old(self).current_step_index as int,
            )),
    {
        if self.is_last_step() {
            self.concluded = true;
            return Ghost(0);
        }
        let total_duration = self.calculate_total_duration();
        let len = self.steps.len();
        let first = self.elapsed_nanos_checked();
        if self.step_past(first, total_duration) {
            loop
                invariant
                    self.wf(),
                    self.steps@ == old(self).steps@,
                    self.steps@.len() > 0,
                    len == self.steps@.len(),
                    self.current_color == old(self).current_color,
                    self.concluded == old(self).concluded,
                    old(self).current_step_index < self.current_step_index,
                decreases self.steps@.len() - self.current_step_index,
            {
                let elapsed = self.elapsed_nanos_checked();
                if !self.step_past(elapsed, total_duration) {
                    break;
                }
            }
        }
        Ghost(first)
    }

    /// Moves to the next step, restarting the clock with nothing counted as
    /// passed, exactly when `elapsed` has reached `total` and the current
    /// step is not the last; otherwise nothing changes.
    fn step_past(&mut self, elapsed: u128, total: u128) -> (moved: bool)
        requires
            old(self).wf(),
            old(self).steps@.len() > 0,
        ensures
            final(self).wf(),
            moved == (elapsed >= total && old(self).current_step_index != old(self).steps@.len() - 1),
            moved ==> final(self).current_step_index == old(self).current_step_index + 1
                && final(self).timer_offset_nanos == 0 && final(self).steps@ == old(self).steps@
                && final(self).current_color == old(self).current_color
                && final(self).concluded == old(self).concluded,
            !moved ==> *final(self) == *old(self),
    {
        let len = self.steps.len();
        if elapsed >= total && !self.is_last_step() {
            assert(self.current_step_index + 1 < len);
            self.current_step_index = self.current_step_index + 1;
            self.timer = now();
            self.timer_offset_nanos = 0;
            true
        } else {
            false
        }
    }

    /// The time the current step takes before the next one starts.
    fn calculate_total_duration(&self) -> (n: u128)
        requires
            self.wf(),
            self.steps@.len() > 0,
        ensures
            n == step_total_nanos(self.steps@, self.current_step_index as int),
    {
        let step = &self.steps[self.current_step_index];
        let step_duration = as_nanos(&step.duration);
        if !self.is_last_step() {
            if step.transition.trigger_required && !step.transition.triggered {
                step_duration
            } else {
                step_duration + as_nanos(&step.transition.duration)
            }
        } else {
            step_duration
        }
    }
}

impl<C> Animation<C> {
    /// The time since the current step started, in nanoseconds: the
    /// clock's reading plus the offset that a trigger set, saturated at
    /// `u128::MAX`. Whatever the clock reads, it is no less than the offset.
    fn elapsed_nanos_checked(&self) -> (n: u128)
        ensures
            n >= self.timer_offset_nanos,
    {
        let d = elapsed(&self.timer);
        self.offset_elapsed(as_nanos(&d))
    }

    /// `elapsed_nanos` nanoseconds on the clock plus the offset that a
    /// trigger set, saturated at `u128::MAX`.
    fn offset_elapsed(&self, elapsed_nanos: u128) -> (n: u128)
        ensures
            n == (if elapsed_nanos + self.timer_offset_nanos <= u128::MAX {
                elapsed_nanos + self.timer_offset_nanos
            } else {
                u128::MAX as int
            }),
    {
        if self.timer_offset_nanos <= u128::MAX - elapsed_nanos {
            elapsed_nanos + self.timer_offset_nanos
        } else {
            u128::MAX
        }
    }
}

} // verus!
