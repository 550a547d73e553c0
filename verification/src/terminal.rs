//! The output target and the handle through which the library talks to it.

use vstd::prelude::*;
use crate::dialogue::Exchange;
use crate::error::WriteError;

verus! {

/// How many lines are erased where the target cannot say how many it shows.
pub const FALLBACK_LINES: usize = 999;

/// Whether a record that was `before` is `after` once `exchange` has taken
/// place: a target that keeps a record has added the exchange to it, a target
/// that keeps none still keeps none.
pub open spec fn follows(
    before: Option<Seq<Exchange>>,
    after: Option<Seq<Exchange>>,
    exchange: Exchange,
) -> bool {
    match before {
        Some(kept) => after == Some(kept.push(exchange)),
        None => after is None,
    }
}

/// What the library needs of an output target. Nothing is assumed of how a
/// target answers: every reply is taken as it comes. A target may keep a
/// record of its exchanges; one that does adds each of them to it.
pub trait Target: Sized {
    /// The exchanges that the target has kept, oldest first. A target that
    /// keeps none leaves this as it is.
    open spec fn record(&self) -> Option<Seq<Exchange>> {
        None
    }

    /// Whether the target is as `standard` hands it out: nothing has been
    /// asked of it yet. A target that has nothing to tell of itself leaves
    /// this as it is.
    open spec fn pristine(&self) -> bool {
        true
    }

    /// The target that is written to where none is named; for a console,
    /// its standard output. Nothing has been asked of it yet.
    fn standard() -> (target: Self)
        ensures
            target.pristine(),
    ;

    /// Writes `text` and ends the line.
    fn write_line(&mut self, text: &str) -> (outcome: Result<(), WriteError>)
        ensures
            follows(old(self).record(), final(self).record(), Exchange::Line(text@, outcome)),
    ;

    /// Writes `text` as it is.
    fn write_str(&mut self, text: &str) -> (outcome: Result<(), WriteError>)
        ensures
            follows(old(self).record(), final(self).record(), Exchange::Raw(text@, outcome)),
    ;

    /// Erases the unfinished line and the `count` lines before it.
    fn clear_last_lines(&mut self, count: usize) -> (outcome: Result<(), WriteError>)
        ensures
            follows(
                old(self).record(),
                final(self).record(),
                Exchange::Erase(count as nat, outcome),
            ),
    ;

    /// The number of lines that the target shows, where it can tell.
    fn visible_lines(&mut self) -> (answer: Option<usize>)
        ensures
            follows(old(self).record(), final(self).record(), Exchange::Measure(answer)),
    ;
}

/// How a screen is wiped before a view is shown.
#[derive(Clone, Copy, Debug, PartialEq, Eq)]
pub enum Clearing {
    /// Ask the target how many lines it shows and erase that many; where it
    /// cannot tell, erase [`FALLBACK_LINES`].
    Exact,
    /// Erase this many lines, whatever the screen holds.
    FixedBound(usize),
}

impl Clearing {
    /// The number of lines to erase, given the target's answer.
    pub open spec fn count(self, answer: Option<usize>) -> nat {
        match self {
            Clearing::FixedBound(bound) => bound as nat,
            Clearing::Exact => match answer {
                Some(lines) => lines as nat,
                None => FALLBACK_LINES as nat,
            },
        }
    }

    /// The number of exchanges that one wipe takes.
    pub open spec fn steps(self) -> nat {
        match self {
            Clearing::FixedBound(_) => 1,
            Clearing::Exact => 2,
        }
    }

    /// The dialogue of one wipe: under `Exact` the question with its answer,
    /// then the request to erase with its outcome.
    pub open spec fn wipe(self, answer: Option<usize>, outcome: Result<(), WriteError>) -> Seq<
        Exchange,
    > {
        match self {
            Clearing::FixedBound(_) => seq![Exchange::Erase(self.count(answer), outcome)],
            Clearing::Exact => seq![
                Exchange::Measure(answer),
                Exchange::Erase(self.count(answer), outcome),
            ],
        }
    }

    /// The number of lines to erase, given the target's answer.
    pub fn lines_to_erase(&self, answer: Option<usize>) -> (count: usize)
        ensures
            count == self.count(answer),
    {
        match self {
            Clearing::FixedBound(bound) => *bound,
            Clearing::Exact => match answer {
                Some(lines) => lines,
                None => FALLBACK_LINES,
            },
        }
    }
}

/// A handle to an output target. Every request goes through it, and it keeps
/// the dialogue with the target, in order, as a ghost log.
pub struct Terminal<T: Target> {
    target: T,
    log: Ghost<Seq<Exchange>>,
}

impl<T: Target> Terminal<T> {
    /// The dialogue so far, oldest exchange first. It starts with what the
    /// target had kept when the handle was made.
    pub closed spec fn log(&self) -> Seq<Exchange> {
        self.log@
    }

    /// The target behind the handle.
    pub closed spec fn inner(&self) -> T {
        self.target
    }

    /// Whether the handle's log is the record of its target, where the target
    /// keeps one. It is so from the start, and every request through the
    /// handle keeps it so.
    pub open spec fn in_step(&self) -> bool {
        self.inner().record() matches Some(kept) ==> kept == self.log()
    }

    /// Whether nothing has gone through the handle yet: its log is what the
    /// target had kept before, and empty where the target keeps nothing.
    pub open spec fn fresh(&self) -> bool {
        self.log() == match self.inner().record() {
            Some(kept) => kept,
            None => Seq::empty(),
        }
    }

    /// Whether one exchange, `exchange`, has taken place between `self` and
    /// `next`: it is the last of the log, and the target has taken part in
    /// it.
    pub open spec fn exchanged(&self, next: &Terminal<T>, exchange: Exchange) -> bool {
        &&& next.log() == self.log().push(exchange)
        &&& follows(self.inner().record(), next.inner().record(), exchange)
    }

    /// A handle to `target`.
    pub fn new(target: T) -> (terminal: Terminal<T>)
        ensures
            terminal.inner() == target,
            terminal.fresh(),
    {
        let ghost log = match target.record() {
            Some(kept) => kept,
            None => Seq::empty(),
        };
        Terminal { target, log: Ghost(log) }
    }

    /// The target behind the handle.
    pub fn target(&self) -> (target: &T)
        ensures
            *target == self.inner(),
    {
        &self.target
    }

    /// Gives the target back.
    pub fn into_target(self) -> (target: T)
        ensures
            target == self.inner(),
    {
        self.target
    }

    /// Asks the target to write `text` and to end the line.
    pub fn write_line(&mut self, text: &str) -> (outcome: Result<(), WriteError>)
        ensures
            old(self).exchanged(final(self), Exchange::Line(text@, outcome)),
    {
        let outcome = self.target.write_line(text);
        proof {
            self.log@ = self.log@.push(Exchange::Line(text@, outcome));
        }
        outcome
    }

    /// Asks the target to write `text` as it is.
    pub fn write_str(&mut self, text: &str) -> (outcome: Result<(), WriteError>)
        ensures
            old(self).exchanged(final(self), Exchange::Raw(text@, outcome)),
    {
        let outcome = self.target.write_str(text);
        proof {
            self.log@ = self.log@.push(Exchange::Raw(text@, outcome));
        }
        outcome
    }

    /// Asks the target to erase the unfinished line and the `count` lines
    /// before it.
    pub fn clear_last_lines(&mut self, count: usize) -> (outcome: Result<(), WriteError>)
        ensures
            old(self).exchanged(final(self), Exchange::Erase(count as nat, outcome)),
    {
        let outcome = self.target.clear_last_lines(count);
        proof {
            self.log@ = self.log@.push(Exchange::Erase(count as nat, outcome));
        }
        outcome
    }

    /// Asks the target how many lines it shows.
    pub fn visible_lines(&mut self) -> (answer: Option<usize>)
        ensures
            old(self).exchanged(final(self), Exchange::Measure(answer)),
    {
        let answer = self.target.visible_lines();
        proof {
            self.log@ = self.log@.push(Exchange::Measure(answer));
        }
        answer
    }

    /// Wipes the screen as `clearing` says.
    pub fn wipe(&mut self, clearing: Clearing) -> (outcome: Result<(), WriteError>)
        ensures
            exists|answer: Option<usize>|
                final(self).log() == old(self).log() + #[trigger] clearing.wipe(answer, outcome),
            old(self).in_step() ==> final(self).in_step(),
    {
        let answer = match clearing {
            Clearing::Exact => self.visible_lines(),
            Clearing::FixedBound(_) => None,
        };
        let outcome = self.clear_last_lines(clearing.lines_to_erase(answer));
        proof {
            assert(self.log() =~= old(self).log() + clearing.wipe(answer, outcome));
        }
        outcome
    }
}

/// Output targets on which a line can be ended.
pub trait WriteLineBreak {
    /// Writes an empty line.
    fn write_line_break(&mut self) -> Result<(), WriteError>;
}

impl<T: Target> WriteLineBreak for Terminal<T> {
    fn write_line_break(&mut self) -> (outcome: Result<(), WriteError>)
        ensures
            old(self).exchanged(final(self), Exchange::Raw(seq!['\n'], outcome)),
    {
        proof {
            reveal_strlit("\n");
            assert("\n"@ =~= seq!['\n']);
        }
        self.write_str("\n")
    }
}

/// Output targets that can be wiped.
pub trait Clear {
    /// Erases what the screen shows.
    fn clear(&mut self) -> Result<(), WriteError>;
}

impl<T: Target> Clear for Terminal<T> {
    fn clear(&mut self) -> (outcome: Result<(), WriteError>)
        ensures
            exists|answer: Option<usize>|
                final(self).log() == old(self).log() + #[trigger] Clearing::Exact.wipe(
                    answer,
                    outcome,
                ),
            old(self).in_step() ==> final(self).in_step(),
    {
        self.wipe(Clearing::Exact)
    }
}

} // verus!
