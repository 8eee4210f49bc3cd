//! The capabilities through which the chip reaches its peripherals. The
//! chip calls them and reacts to what they return; how they do their work
//! is up to the implementor.
//!
//! Every call is recorded, with its arguments and its answer, in a log that
//! the implementor's state carries as a spec function. The chip's contracts
//! state which calls a cycle or a frame makes, in order, and that the answers
//! it acted on are the ones the calls returned.

use vstd::prelude::*;

verus! {

/// One call on a peripheral, with its arguments and its answer.
pub enum Call {
    /// `Video::clear`.
    Clear,
    /// `Video::draw(x, y, sprite)`, which answered whether a pixel went
    /// from set to clear.
    Draw(isize, isize, Seq<u8>, bool),
    /// `Video::present`.
    Present,
    /// `Audio::buzz(on)`.
    Buzz(bool),
    /// `Input::keydown(which)`, with its answer.
    KeyDown(usize, bool),
    /// `Input::key`, with the key pressed or `None` on a quit request.
    Key(Option<u8>),
    /// `Timer::pump`, with whether a quit was requested.
    Pump(bool),
}

/// The calls made on a peripheral so far.
pub type CallLog = Seq<Call>;

/// A peripheral's record of the calls made on it.
pub trait Record {
    /// Every call made on this peripheral, oldest first. A model only:
    /// nothing calls it at run time.
    spec fn calls(&self) -> CallLog;
}

/// Synchronisation.
pub trait Timer: Record {
    /// Waits for the next vertical sync (60 Hz), processing host events.
    /// Returns `true` on a quit request.
    fn pump(&mut self) -> (r: bool)
        ensures
            final(self).calls() == old(self).calls().push(Call::Pump(r)),
    ;
}

/// Graphics controller.
pub trait Video: Record {
    /// Clears the screen.
    fn clear(&mut self)
        ensures
            final(self).calls() == old(self).calls().push(Call::Clear),
    ;

    /// Draws a sprite by flipping pixels, wrapping around the screen's
    /// edges. Returns `true` if any pixel went from set to clear.
    fn draw(&mut self, x: isize, y: isize, sprite: &[u8]) -> (r: bool)
        ensures
            final(self).calls() == old(self).calls().push(Call::Draw(x, y, sprite@, r)),
    ;

    /// Presents the screen to the display.
    fn present(&mut self)
        ensures
            final(self).calls() == old(self).calls().push(Call::Present),
    ;
}

/// Sound controller.
pub trait Audio: Record {
    /// Enables or disables the buzzer. Safe to call every frame.
    fn buzz(&mut self, on: bool)
        ensures
            final(self).calls() == old(self).calls().push(Call::Buzz(on)),
    ;
}

/// Input state controller.
pub trait Input: Record {
    /// Whether key `which` (0 to 15) is down.
    fn keydown(&mut self, which: usize) -> (r: bool)
        ensures
            final(self).calls() == old(self).calls().push(Call::KeyDown(which, r)),
    ;

    /// Waits until a key is pressed. Returns `None` on a quit request.
    fn key(&mut self) -> (r: Option<u8>)
        ensures
            final(self).calls() == old(self).calls().push(Call::Key(r)),
    ;
}

} // verus!
