//! The model that the contracts speak of: what was said between the library
//! and an output target, and what a screen shows after it.
//!
//! The screen is taken to be tall enough that nothing scrolls out of it.

use vstd::prelude::*;
use crate::error::WriteError;

verus! {

/// One request to the output target together with the target's reply.
pub enum Exchange {
    /// The target was asked how many lines it shows, and answered.
    Measure(Option<usize>),
    /// The target was asked to erase this many lines.
    Erase(nat, Result<(), WriteError>),
    /// The target was asked to write this text and to end the line.
    Line(Seq<char>, Result<(), WriteError>),
    /// The target was asked to write this text as it is.
    Raw(Seq<char>, Result<(), WriteError>),
}

impl Exchange {
    /// The target's verdict on the request; a question is never refused.
    pub open spec fn outcome(self) -> Result<(), WriteError> {
        match self {
            Exchange::Measure(_) => Ok(()),
            Exchange::Erase(_, outcome) => outcome,
            Exchange::Line(_, outcome) => outcome,
            Exchange::Raw(_, outcome) => outcome,
        }
    }

    /// The same request, refused with `failure`.
    pub open spec fn refused(self, failure: WriteError) -> Exchange {
        match self {
            Exchange::Measure(answer) => Exchange::Measure(answer),
            Exchange::Erase(count, _) => Exchange::Erase(count, Err(failure)),
            Exchange::Line(text, _) => Exchange::Line(text, Err(failure)),
            Exchange::Raw(text, _) => Exchange::Raw(text, Err(failure)),
        }
    }
}

/// What a screen shows: the finished lines, oldest first, and the text of the
/// line that the cursor stands in.
pub struct Frame {
    pub rows: Seq<Seq<char>>,
    pub tail: Seq<char>,
}

impl Frame {
    /// The empty screen.
    pub open spec fn blank() -> Frame {
        Frame { rows: Seq::empty(), tail: Seq::empty() }
    }

    /// The screen after one more character: a line feed finishes the line,
    /// any other character is added to it.
    pub open spec fn put(self, c: char) -> Frame {
        if c == '\n' {
            Frame { rows: self.rows.push(self.tail), tail: Seq::empty() }
        } else {
            Frame { rows: self.rows, tail: self.tail.push(c) }
        }
    }

    /// The screen after `text`, character by character.
    pub open spec fn write(self, text: Seq<char>) -> Frame
        decreases text.len(),
    {
        if text.len() == 0 {
            self
        } else {
            self.write(text.drop_last()).put(text.last())
        }
    }

    /// The screen after the unfinished line and the `count` lines before it
    /// were erased; where fewer lines stand, all of them go.
    pub open spec fn erase(self, count: nat) -> Frame {
        let kept = if count >= self.rows.len() {
            0
        } else {
            self.rows.len() - count
        };
        Frame { rows: self.rows.take(kept), tail: Seq::empty() }
    }

    /// The screen after one exchange. A refused request and a question leave
    /// it as it was.
    pub open spec fn after(self, exchange: Exchange) -> Frame {
        match exchange {
            Exchange::Erase(count, Ok(_)) => self.erase(count),
            Exchange::Line(text, Ok(_)) => self.write(text).put('\n'),
            Exchange::Raw(text, Ok(_)) => self.write(text),
            _ => self,
        }
    }

    /// The screen after a whole dialogue, oldest exchange first.
    pub open spec fn replay(self, log: Seq<Exchange>) -> Frame
        decreases log.len(),
    {
        if log.len() == 0 {
            self
        } else {
            self.replay(log.drop_last()).after(log.last())
        }
    }

    /// The lines that can be seen, the unfinished one included where it holds
    /// any text.
    pub open spec fn lines(self) -> Seq<Seq<char>> {
        if self.tail.len() == 0 {
            self.rows
        } else {
            self.rows.push(self.tail)
        }
    }
}

/// Whether `after` is `before` followed by `plan` as far as one of its
/// requests, which the target refused with `failure`: nothing of the plan was
/// tried after the refusal. A question cannot be the refused request.
pub open spec fn halted(
    plan: Seq<Exchange>,
    before: Seq<Exchange>,
    after: Seq<Exchange>,
    failure: WriteError,
) -> bool {
    let at = after.len() - before.len() - 1;
    &&& 0 <= at < plan.len()
    &&& !(plan[at] is Measure)
    &&& after == before + plan.take(at).push(plan[at].refused(failure))
}

/// Whether the exchanges that `after` adds to `before` end with the first
/// refused one among them, and `outcome` is its failure where there is one.
pub open spec fn ends_at_refusal(
    before: Seq<Exchange>,
    after: Seq<Exchange>,
    outcome: Result<(), WriteError>,
) -> bool {
    &&& before.is_prefix_of(after)
    &&& forall|at: int|
        before.len() <= at < after.len() && (#[trigger] after[at]).outcome() is Err ==> at
            == after.len() - 1 && outcome == after[at].outcome()
}

/// What a screen that started empty shows after `log`.
pub open spec fn shown(log: Seq<Exchange>) -> Frame {
    Frame::blank().replay(log)
}

/// Replaying one more exchange is one more step on the frame.
pub proof fn lemma_replay_push(frame: Frame, log: Seq<Exchange>, exchange: Exchange)
    ensures
        frame.replay(log.push(exchange)) == frame.replay(log).after(exchange),
{
    assert(log.push(exchange).drop_last() =~= log);
}

/// Replaying two dialogues in a row is replaying the second on what the first
/// left.
pub proof fn lemma_replay_concat(frame: Frame, first: Seq<Exchange>, second: Seq<Exchange>)
    ensures
        frame.replay(first + second) == frame.replay(first).replay(second),
    decreases second.len(),
{
    if second.len() == 0 {
        assert(first + second =~= first);
    } else {
        lemma_replay_concat(frame, first, second.drop_last());
        assert((first + second).drop_last() =~= first + second.drop_last());
        assert((first + second).last() == second.last());
    }
}

/// Writing one more character is one more step on the frame.
pub proof fn lemma_write_push(frame: Frame, text: Seq<char>, c: char)
    ensures
        frame.write(text.push(c)) == frame.write(text).put(c),
{
    assert(text.push(c).drop_last() =~= text);
}

/// Text without a line feed is added to the unfinished line.
pub proof fn lemma_write_plain(frame: Frame, text: Seq<char>)
    requires
        !text.contains('\n'),
    ensures
        frame.write(text) == (Frame { rows: frame.rows, tail: frame.tail + text }),
    decreases text.len(),
{
    if text.len() == 0 {
        assert(frame.tail + text =~= frame.tail);
    } else {
        assert forall|i: int| 0 <= i < text.len() - 1 implies text.drop_last()[i] != '\n' by {
            assert(text.drop_last()[i] == text[i]);
            assert(text.contains(text[i]));
        }
        assert(!text.drop_last().contains('\n'));
        assert(text.contains(text.last()));
        lemma_write_plain(frame, text.drop_last());
        assert((frame.tail + text.drop_last()).push(text.last()) =~= frame.tail + text);
    }
}

/// Erasing at least as many lines as stand on the screen leaves it empty.
pub proof fn lemma_erase_all(frame: Frame, count: nat)
    requires
        count >= frame.rows.len(),
    ensures
        frame.erase(count) == Frame::blank(),
{
    assert(frame.rows.take(0) =~= Seq::<Seq<char>>::empty());
}

} // verus!
