//! Where the game writes its frames.
use vstd::prelude::*;

verus! {

/// The control sequence that clears a terminal and moves to its left top corner.
pub const CLEAR_SCREEN: &'static str = "\x1B[2J\x1B[1;1H";

/// Something that the game can write to.
pub trait Printer {
    /// Whether `printed` tells what was written to this printer. A printer
    /// that keeps no record says nothing of it.
    open spec fn keeps_record(&self) -> bool {
        false
    }

    /// All that was written so far, for a printer that keeps a record.
    open spec fn printed(&self) -> Seq<char> {
        Seq::empty()
    }

    /// Writes the control sequence that clears the screen.
    fn clear(&mut self)
        ensures
            final(self).keeps_record() == old(self).keeps_record(),
            old(self).keeps_record() ==> final(self).printed() == old(self).printed()
                + CLEAR_SCREEN@,
    ;

    /// Writes `output`.
    fn print(&mut self, output: &str)
        ensures
            final(self).keeps_record() == old(self).keeps_record(),
            old(self).keeps_record() ==> final(self).printed() == old(self).printed() + output@,
    ;
}

/// A printer that keeps what is written to it.
pub struct Logger {
    output: String,
}

/// Longer name of [`Logger`].
pub type ConsoleLogger = Logger;

impl Default for Logger {
    fn default() -> (logger: Self)
        ensures
            logger.keeps_record(),
            logger.printed() == Seq::<char>::empty(),
    {
        Self::new()
    }
}

impl Logger {
    /// A logger to which nothing was written yet.
    pub fn new() -> (logger: Self)
        ensures
            logger.keeps_record(),
            logger.printed() == Seq::<char>::empty(),
    {
        Self { output: String::new() }
    }

    /// All that was written to this logger.
    pub fn log(&self) -> (output: String)
        ensures
            output@ == self.printed(),
    {
        self.output.clone()
    }
}

impl Printer for Logger {
    open spec fn keeps_record(&self) -> bool {
        true
    }

    closed spec fn printed(&self) -> Seq<char> {
        self.output@
    }

    fn clear(&mut self) {
        self.print(CLEAR_SCREEN);
    }

    fn print(&mut self, output: &str) {
        self.output.append(output);
    }
}

} // verus!
