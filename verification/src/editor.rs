//! Which band the editor shows the band-specific parameters of.
use vstd::prelude::*;

use crate::bands::crossover_in_use;
use crate::NUM_BANDS;
use vstd::arithmetic::div_mod::{
    lemma_add_mod_noop,
    lemma_fundamental_div_mod_converse,
    lemma_small_mod,
};

verus! {

/// What the editor's band navigation reacts to.
#[derive(Clone, Copy, Debug, PartialEq, Eq, Structural)]
pub enum AppEvent {
    /// Show the next band, wrapping from the last active band to the first.
    NextBand,
    /// Show the previous band, wrapping from the first band to the last active one.
    PrevBand,
    /// Take over the number of active bands that the processing currently uses.
    SynchronizeWithMain(i32),
}

/// A number of active bands that the plugin accepts: from one up to `NUM_BANDS`.
pub open spec fn valid_band_count(active_bands: int) -> bool {
    1 <= active_bands <= NUM_BANDS
}

/// The band shown after `NextBand`.
pub open spec fn next_index(current: int, active: int) -> int {
    (current + 1) % active
}

/// The band shown after `PrevBand`.
pub open spec fn prev_index(current: int, active: int) -> int {
    (current + active - 1) % active
}

/// The band shown after taking over `active` bands: the same band if it is
/// still active, else the last active band.
pub open spec fn synchronized_index(current: int, active: int) -> int {
    if current >= active {
        active - 1
    } else {
        current
    }
}

/// The pair (shown band, active bands) after one event.
pub open spec fn step(current: int, active: int, event: AppEvent) -> (int, int) {
    match event {
        AppEvent::NextBand => (next_index(current, active), active),
        AppEvent::PrevBand => (prev_index(current, active), active),
        AppEvent::SynchronizeWithMain(n) => (synchronized_index(current, n as int), n as int),
    }
}

/// An event that can be applied: a synchronization brings a valid band count.
pub open spec fn event_ok(event: AppEvent) -> bool {
    match event {
        AppEvent::SynchronizeWithMain(n) => valid_band_count(n as int),
        _ => true,
    }
}

/// How many crossover sliders the editor shows for `active_bands` active
/// bands: one per crossover between two active bands.
pub open spec fn visible_crossovers_spec(active_bands: int) -> int {
    if active_bands >= NUM_BANDS {
        NUM_BANDS - 1
    } else if active_bands >= 2 {
        active_bands - 1
    } else {
        0
    }
}

/// The number of crossover sliders to show; the "Band Crossovers" header is
/// shown exactly when it is not zero.
pub fn visible_crossovers(active_bands: i32) -> (r: usize)
    ensures
        r == visible_crossovers_spec(active_bands as int),
        r <= NUM_BANDS - 1,
        active_bands <= 1 ==> r == 0,
        2 <= active_bands <= NUM_BANDS ==> r == active_bands - 1,
        active_bands >= NUM_BANDS ==> r == NUM_BANDS - 1,
{
    if active_bands <= 1 {
        0
    } else if active_bands >= NUM_BANDS as i32 {
        NUM_BANDS - 1
    } else {
        (active_bands - 1) as usize
    }
}

/// The editor shows a slider for a crossover exactly when the processing
/// takes that crossover's cutoff from the user.
pub proof fn lemma_sliders_match_crossovers_in_use(active_bands: int, crossover: int)
    requires
        0 <= crossover < NUM_BANDS,
    ensures
        crossover < visible_crossovers_spec(active_bands) <==> crossover_in_use(
            active_bands,
            crossover,
        ),
        crossover < visible_crossovers_spec(active_bands) <==> (crossover < 4 && active_bands
            >= crossover + 2),
{
}

/// The band shown after `n` `NextBand` events in a row.
pub open spec fn next_times(current: int, active: int, n: nat) -> int
    decreases n,
{
    if n == 0 {
        current
    } else {
        next_index(next_times(current, active, (n - 1) as nat), active)
    }
}

/// Taking the remainder of a number below twice the divisor subtracts the
/// divisor at most once.
proof fn lemma_wrap_once(x: int, d: int)
    requires
        0 < d,
        0 <= x < 2 * d,
    ensures
        x < d ==> x % d == x,
        d <= x ==> x % d == x - d,
{
    if x < d {
        lemma_fundamental_div_mod_converse(x, d, 0, x);
    } else {
        lemma_fundamental_div_mod_converse(x, d, 1, x - d);
    }
}

/// What each event does, over every valid state: `NextBand` moves one band
/// up and wraps from the last active band to the first; `PrevBand` moves one
/// band down and wraps from the first band to the last active one;
/// `SynchronizeWithMain(n)` makes `n` the active count and keeps the shown
/// band if it is below `n`, else shows band `n - 1`, the last active one.
pub proof fn lemma_event_effect(current: int, active: int, event: AppEvent)
    requires
        valid_band_count(active),
        0 <= current < active,
        event_ok(event),
    ensures
        event is NextBand ==> step(current, active, event).1 == active && (if current + 1
            < active {
            step(current, active, event).0 == current + 1
        } else {
            step(current, active, event).0 == 0
        }),
        event is PrevBand ==> step(current, active, event).1 == active && (if current > 0 {
            step(current, active, event).0 == current - 1
        } else {
            step(current, active, event).0 == active - 1
        }),
        event matches AppEvent::SynchronizeWithMain(n) ==> {
            &&& step(current, active, event).1 == n
            &&& current >= n ==> step(current, active, event).0 == n - 1
            &&& current < n ==> step(current, active, event).0 == current
        },
{
    lemma_wrap_once(current + 1, active);
    lemma_wrap_once(current + active - 1, active);
}

/// Going to the next band and then back to the previous one shows the band
/// that was shown before, with the same active bands.
pub proof fn lemma_prev_undoes_next(current: int, active: int)
    requires
        valid_band_count(active),
        0 <= current < active,
    ensures
        step(step(current, active, AppEvent::NextBand).0, active, AppEvent::PrevBand) == (
            current,
            active,
        ),
{
    lemma_wrap_once(current + 1, active);
    let n = next_index(current, active);
    lemma_wrap_once(n + active - 1, active);
}

/// Going to the previous band and then to the next one shows the band that
/// was shown before, with the same active bands.
pub proof fn lemma_next_undoes_prev(current: int, active: int)
    requires
        valid_band_count(active),
        0 <= current < active,
    ensures
        step(step(current, active, AppEvent::PrevBand).0, active, AppEvent::NextBand) == (
            current,
            active,
        ),
{
    lemma_wrap_once(current + active - 1, active);
    let p = prev_index(current, active);
    lemma_wrap_once(p + 1, active);
}

/// After `n` steps to the next band, the shown band is `n` places further,
/// counted round the active bands.
pub proof fn lemma_next_times(current: int, active: int, n: nat)
    requires
        valid_band_count(active),
        0 <= current < active,
    ensures
        next_times(current, active, n) == (current + n) % active,
    decreases n,
{
    if n == 0 {
        lemma_wrap_once(current, active);
    } else {
        lemma_next_times(current, active, (n - 1) as nat);
        let x = current + n - 1;
        if active == 1 {
            lemma_fundamental_div_mod_converse(x % active + 1, 1, x % active + 1, 0);
            lemma_fundamental_div_mod_converse(x + 1, 1, x + 1, 0);
        } else {
            lemma_small_mod(1, active as nat);
            lemma_add_mod_noop(x, 1, active);
        }
    }
}

/// Going to the next band once per active band comes back to the band shown
/// at the start.
pub proof fn lemma_next_cycles(current: int, active: int)
    requires
        valid_band_count(active),
        0 <= current < active,
    ensures
        next_times(current, active, active as nat) == current,
{
    lemma_next_times(current, active, active as nat);
    lemma_fundamental_div_mod_converse(current + active, active, 1, current);
}

/// Taking over the number of bands that is already active changes nothing.
pub proof fn lemma_synchronize_same_count(current: int, active: int)
    requires
        valid_band_count(active),
        0 <= current < active,
    ensures
        step(current, active, AppEvent::SynchronizeWithMain(active as i32)) == (current, active),
{
}

/// Taking over the same band count twice is the same as taking it over once.
pub proof fn lemma_synchronize_idempotent(current: int, active: int, n: i32)
    requires
        valid_band_count(active),
        0 <= current < active,
        valid_band_count(n as int),
    ensures
        ({
            let once = step(current, active, AppEvent::SynchronizeWithMain(n));
            step(once.0, once.1, AppEvent::SynchronizeWithMain(n)) == once
        }),
{
}

/// Every event that can be applied leads from a valid state to a valid state:
/// the shown band is always one of the active bands.
pub proof fn lemma_step_keeps_valid(current: int, active: int, event: AppEvent)
    requires
        valid_band_count(active),
        0 <= current < active,
        event_ok(event),
    ensures
        ({
            let next = step(current, active, event);
            valid_band_count(next.1) && 0 <= next.0 < next.1
        }),
{
    lemma_wrap_once(current + 1, active);
    lemma_wrap_once(current + active - 1, active);
}

/// The band navigation state of the editor.
pub struct BandSelector {
    current_band: usize,
    active_bands: i32,
}

impl BandSelector {
    /// The band whose parameters are shown (counted from zero).
    pub closed spec fn current(&self) -> int {
        self.current_band as int
    }

    /// The number of bands that are active.
    pub closed spec fn active(&self) -> int {
        self.active_bands as int
    }

    /// The shown band is one of the active bands, whose number is valid.
    pub open spec fn valid(&self) -> bool {
        &&& valid_band_count(self.active())
        &&& 0 <= self.current() < self.active()
    }

    /// Starts on the first band with `active_bands` bands active.
    pub fn new(active_bands: i32) -> (s: Self)
        requires
            valid_band_count(active_bands as int),
        ensures
            s.valid(),
            s.current() == 0,
            s.active() == active_bands,
    {
        BandSelector { current_band: 0, active_bands }
    }

    /// The band whose parameters are shown.
    pub fn current_band(&self) -> (r: usize)
        ensures
            r == self.current(),
    {
        self.current_band
    }

    /// The number of active bands.
    pub fn active_bands(&self) -> (r: i32)
        ensures
            r == self.active(),
    {
        self.active_bands
    }

    /// Applies one event of the editor to the navigation state.
    pub fn event(&mut self, event: AppEvent)
        requires
            old(self).valid(),
            event_ok(event),
        ensures
            final(self).valid(),
            (final(self).current(), final(self).active()) == step(
                old(self).current(),
                old(self).active(),
                event,
            ),
            event is NextBand ==> final(self).active() == old(self).active() && (if old(
                self,
            ).current() + 1 < old(self).active() {
                final(self).current() == old(self).current() + 1
            } else {
                final(self).current() == 0
            }),
            event is PrevBand ==> final(self).active() == old(self).active() && (if old(
                self,
            ).current() > 0 {
                final(self).current() == old(self).current() - 1
            } else {
                final(self).current() == old(self).active() - 1
            }),
            event matches AppEvent::SynchronizeWithMain(n) ==> {
                &&& final(self).active() == n
                &&& old(self).current() >= n ==> final(self).current() == n - 1
                &&& old(self).current() < n ==> final(self).current() == old(self).current()
            },
    {
        proof {
            lemma_event_effect(old(self).current(), old(self).active(), event);
        }
        match event {
            AppEvent::NextBand => {
                self.current_band = (self.current_band + 1) % (self.active_bands as usize);
            },
            AppEvent::PrevBand => {
                self.current_band = (self.current_band + self.active_bands as usize - 1) % (
                self.active_bands as usize);
            },
            AppEvent::SynchronizeWithMain(active_bands) => {
                self.active_bands = active_bands;
                if self.current_band >= self.active_bands as usize {
                    self.current_band = self.active_bands as usize - 1;
                }
            },
        }
    }
}

} // verus!
