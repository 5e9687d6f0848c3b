//! What the loop around the engine decides: what a key asks for, and how long
//! to wait for the next frame.

use crate::game::key_of;
use vstd::prelude::*;

verus! {

/// What a key asks the loop to do.
#[derive(Debug, Clone, Copy, PartialEq, Eq, Structural)]
pub enum Command {
    /// Leave the game.
    Quit,
    /// Enter the running state and populate the grid.
    Start,
    /// Stop or resume, keeping the state as it is.
    TogglePause,
    /// Begin another round.
    Restart,
    /// Nothing for the loop to do.
    Nothing,
}

/// The command that a key stands for: `q` quits, `s` starts, `p` toggles the
/// pause; `y` and `r` restart and `n` quits, but only while the game is
/// running. Every other key, and no key, asks for nothing.
pub open spec fn command_of(key: Option<u8>, started: bool) -> Command {
    if key == Some(113u8) {
        Command::Quit
    } else if key == Some(115u8) {
        Command::Start
    } else if key == Some(112u8) {
        Command::TogglePause
    } else if (key == Some(121u8) || key == Some(114u8)) && started {
        Command::Restart
    } else if key == Some(110u8) && started {
        Command::Quit
    } else {
        Command::Nothing
    }
}

/// Decides `command_of` on what a poll of the keyboard gave.
pub fn command_for(key: &Option<Result<u8, std::io::Error>>, started: bool) -> (command: Command)
    ensures
        command == command_of(key_of(*key), started),
{
    match key {
        Some(Ok(byte)) => {
            if *byte == 113u8 {
                Command::Quit
            } else if *byte == 115u8 {
                Command::Start
            } else if *byte == 112u8 {
                Command::TogglePause
            } else if (*byte == 121u8 || *byte == 114u8) && started {
                Command::Restart
            } else if *byte == 110u8 && started {
                Command::Quit
            } else {
                Command::Nothing
            }
        },
        _ => Command::Nothing,
    }
}

/// The time a frame should take at `speed` frames a second, in
/// milliseconds.
pub fn frame_interval(speed: u64) -> (interval: u64)
    requires
        speed > 0,
    ensures
        interval == 1000int / (speed as int),
{
    1000 / speed
}

/// The whole milliseconds in a stretch of nanoseconds.
pub fn elapsed_millis(nanos: u32) -> (millis: u64)
    ensures
        millis == nanos as int / 1_000_000,
{
    (nanos / 1_000_000) as u64
}

/// The frames a second at which a frame takes `nanos` nanoseconds.
pub fn frames_per_second(nanos: u32) -> (fps: i32)
    requires
        nanos > 0,
    ensures
        fps == 1_000_000_000int / (nanos as int),
{
    (1_000_000_000 / nanos) as i32
}

/// How long to sleep before the next frame, when `dt` milliseconds have
/// passed since the last one: the rest of the interval, or nothing once the
/// interval is over.
pub fn wait_before_frame(dt: u64, interval: u64) -> (wait: u64)
    ensures
        wait == if dt < interval {
            interval - dt
        } else {
            0
        },
{
    if dt < interval {
        interval - dt
    } else {
        0
    }
}

} // verus!
