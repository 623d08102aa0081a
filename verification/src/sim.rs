//! The statistics ticker: what it publishes and how it reacts to commands.

use crate::playback::duration_from_millis;
use crate::playback::millis_duration;
use crate::triple_buffer::published;
use crate::triple_buffer::state_ok;
use crate::triple_buffer::written;
use crate::triple_buffer::TripleBuffer;
use std::time::Duration;
use vstd::prelude::*;

verus! {

/// One statistics snapshot handed from the ticker to the renderer.
#[derive(Clone)]
pub struct Stats {
    pub tick: u32,
    /// Unused; left empty by the ticker.
    pub color_counts: Vec<u32>,
    /// Unused; left empty by the ticker.
    pub branch_density: Option<Vec<u32>>,
}

impl Default for Stats {
    fn default() -> (r: Self)
        ensures
            r.tick == 0,
            r.color_counts@.len() == 0,
            r.branch_density is None,
    {
        Stats { tick: 0, color_counts: Vec::new(), branch_density: None }
    }
}

/// A command sent to the ticker.
pub enum Command {
    /// Sets the tick interval.
    SetSpeed(Duration),
    /// Stops ticking.
    Pause,
    /// Resumes ticking.
    Resume,
    /// Restarts the tick count at zero.
    Reset,
    /// Has no effect on the ticker.
    SetBranchProjection,
}

/// The ticker's own state: the tick count, whether it is paused, and the
/// tick interval it was last given.
pub struct SimClock {
    pub tick: u32,
    pub is_paused: bool,
    pub speed_limit: Duration,
}

/// The interval the ticker starts with, in milliseconds.
pub const DEFAULT_TICK_MILLIS: u64 = 66;

/// The clock after one command: a new interval, paused, running, back at
/// tick zero, or unchanged.
pub open spec fn after_command(c: SimClock, cmd: Command) -> SimClock {
    match cmd {
        Command::SetSpeed(d) => SimClock { speed_limit: d, ..c },
        Command::Pause => SimClock { is_paused: true, ..c },
        Command::Resume => SimClock { is_paused: false, ..c },
        Command::Reset => SimClock { tick: 0, ..c },
        Command::SetBranchProjection => c,
    }
}

/// The clock after one pass of the loop: unchanged while paused, otherwise
/// one tick further, wrapping at 2^32.
pub open spec fn after_advance(c: SimClock) -> SimClock {
    if c.is_paused {
        c
    } else {
        SimClock { tick: (if c.tick == u32::MAX { 0 } else { (c.tick + 1) as u32 }), ..c }
    }
}

/// Each command changes only its own field: a new interval only the
/// interval, pause and resume only the paused flag (to true and false),
/// reset only the tick (to zero), and the projection command nothing.
pub proof fn lemma_command_fields(c: SimClock, d: Duration)
    ensures
        after_command(c, Command::SetSpeed(d)).speed_limit == d,
        after_command(c, Command::SetSpeed(d)).tick == c.tick,
        after_command(c, Command::SetSpeed(d)).is_paused == c.is_paused,
        after_command(c, Command::Pause).is_paused,
        after_command(c, Command::Pause).tick == c.tick,
        after_command(c, Command::Pause).speed_limit == c.speed_limit,
        !after_command(c, Command::Resume).is_paused,
        after_command(c, Command::Resume).tick == c.tick,
        after_command(c, Command::Resume).speed_limit == c.speed_limit,
        after_command(c, Command::Reset).tick == 0,
        after_command(c, Command::Reset).is_paused == c.is_paused,
        after_command(c, Command::Reset).speed_limit == c.speed_limit,
        after_command(c, Command::SetBranchProjection) == c,
{
}

/// A paused clock that is reset stays paused: its next pass does not tick
/// and the tick stays zero.
pub proof fn lemma_reset_keeps_pause(c: SimClock)
    requires
        c.is_paused,
    ensures
        after_command(c, Command::Reset).is_paused,
        after_advance(after_command(c, Command::Reset)).tick == 0,
{
}

/// One pass of a running clock adds one to the tick modulo 2^32 and changes
/// nothing else; a paused clock is left exactly as it was.
pub proof fn lemma_advance_counts(c: SimClock)
    ensures
        !c.is_paused ==> after_advance(c).tick as int == (c.tick as int + 1) % 0x1_0000_0000,
        after_advance(c).is_paused == c.is_paused,
        after_advance(c).speed_limit == c.speed_limit,
        c.is_paused ==> after_advance(c) == c,
{
}

/// A paused clock does not tick, whatever it did before.
pub proof fn lemma_paused_clock_holds(c: SimClock)
    ensures
        after_advance(after_command(c, Command::Pause)) == after_command(c, Command::Pause),
{
}

/// A running clock that is reset counts from zero again: its next tick is 1.
pub proof fn lemma_reset_restarts(c: SimClock)
    requires
        !c.is_paused,
    ensures
        after_advance(after_command(c, Command::Reset)).tick == 1,
{
}

/// A resumed clock ticks on its next pass.
pub proof fn lemma_resume_ticks(c: SimClock)
    requires
        c.tick < u32::MAX,
    ensures
        after_advance(after_command(c, Command::Resume)).tick == c.tick + 1,
{
}

impl SimClock {
    /// Tick zero, running, with the default 66 ms interval.
    pub fn new() -> (r: Self)
        ensures
            r.tick == 0,
            !r.is_paused,
            r.speed_limit == millis_duration(DEFAULT_TICK_MILLIS),
    {
        SimClock { tick: 0, is_paused: false, speed_limit: duration_from_millis(DEFAULT_TICK_MILLIS) }
    }

    /// Applies one command.
    pub fn apply(&mut self, cmd: Command)
        ensures
            *final(self) == after_command(*old(self), cmd),
    {
        match cmd {
            Command::SetSpeed(d) => {
                self.speed_limit = d;
            },
            Command::Pause => {
                self.is_paused = true;
            },
            Command::Resume => {
                self.is_paused = false;
            },
            Command::Reset => {
                self.tick = 0;
            },
            Command::SetBranchProjection => {},
        }
    }

    /// One pass of the ticker loop after the commands are drained: a paused
    /// clock stays as it is and returns false; a running one counts one
    /// tick, wrapping at 2^32, and returns true.
    pub fn advance(&mut self) -> (ticked: bool)
        ensures
            ticked == !old(self).is_paused,
            *final(self) == after_advance(*old(self)),
    {
        if self.is_paused {
            return false;
        }
        self.tick = self.tick.wrapping_add(1);
        true
    }
}

/// Writes a snapshot carrying `tick` into the back buffer (its other
/// fields as the back buffer held them) and publishes it to the reader.
pub fn push_snapshot(stats_buffer: &mut TripleBuffer<Stats>, tick: u32)
    ensures
        state_ok(final(stats_buffer).state_byte()),
        final(stats_buffer)@ == published(
            written(old(stats_buffer)@, (Stats { tick, ..old(stats_buffer)@.back })),
        ),
{
    let stat = stats_buffer.write();
    stat.tick = tick;
    stats_buffer.publish();
}

} // verus!
