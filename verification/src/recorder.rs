//! An output target that lives in memory: it keeps every exchange and can
//! tell what a screen would show after them.

use vstd::prelude::*;
use crate::dialogue::{lemma_replay_push, lemma_write_push, shown, Exchange, Frame};
use crate::error::WriteError;
use crate::terminal::Target;

verus! {

/// The texts of `rows`, in order.
pub open spec fn texts(rows: Seq<String>) -> Seq<Seq<char>> {
    rows.map_values(|row: String| row@)
}

/// One exchange as a recorder keeps it.
#[derive(Debug, PartialEq, Eq)]
pub enum Event {
    /// The recorder was asked how many lines it shows, and answered.
    Measure(Option<usize>),
    /// The recorder was asked to erase this many lines.
    Erase(usize, Result<(), WriteError>),
    /// The recorder was asked to write this text and to end the line.
    Line(String, Result<(), WriteError>),
    /// The recorder was asked to write this text as it is.
    Raw(String, Result<(), WriteError>),
}

impl View for Event {
    type V = Exchange;

    open spec fn view(&self) -> Exchange {
        match self {
            Event::Measure(answer) => Exchange::Measure(*answer),
            Event::Erase(count, outcome) => Exchange::Erase(*count as nat, *outcome),
            Event::Line(text, outcome) => Exchange::Line(text@, *outcome),
            Event::Raw(text, outcome) => Exchange::Raw(text@, *outcome),
        }
    }
}

/// The exchanges that `events` stand for, in order.
pub open spec fn exchanges(events: Seq<Event>) -> Seq<Exchange> {
    events.map_values(|event: Event| event@)
}

/// A second copy of `outcome`, for the record.
fn copy_of(outcome: &Result<(), WriteError>) -> (copy: Result<(), WriteError>)
    ensures
        copy == *outcome,
{
    match outcome {
        Ok(done) => Ok(*done),
        Err(failure) => Err(failure.clone()),
    }
}

/// The text of a screen as it is built up: the finished lines and the
/// unfinished one.
struct Sheet {
    rows: Vec<String>,
    tail: String,
}

impl Sheet {
    /// What the sheet holds, as a frame.
    spec fn frame(&self) -> Frame {
        Frame { rows: texts(self.rows@), tail: self.tail@ }
    }

    /// The empty sheet.
    fn blank() -> (sheet: Sheet)
        ensures
            sheet.frame() == Frame::blank(),
    {
        let sheet = Sheet { rows: Vec::new(), tail: String::new() };
        proof {
            assert(texts(sheet.rows@) =~= Seq::<Seq<char>>::empty());
        }
        sheet
    }

    /// Finishes the line that is being written.
    fn end_line(self) -> (sheet: Sheet)
        ensures
            sheet.frame() == self.frame().put('\n'),
    {
        let mut rows = self.rows;
        rows.push(self.tail);
        proof {
            assert(texts(rows@) =~= texts(self.rows@).push(self.tail@));
        }
        Sheet { rows, tail: String::new() }
    }

    /// Adds `text`; each line feed in it finishes a line.
    fn write(self, text: &str) -> (sheet: Sheet)
        ensures
            sheet.frame() == self.frame().write(text@),
    {
        let ghost start_frame = self.frame();
        let mut rows = self.rows;
        let mut tail = self.tail;
        let mut start: usize = 0;
        let mut at: usize = 0;
        let len: usize = text.unicode_len();
        for c in it: text.chars()
            invariant
                len == text@.len(),
                it.seq() == text@,
                at == it.index(),
                start <= at <= len,
                start_frame.write(text@.take(at as int)) == (Frame {
                    rows: texts(rows@),
                    tail: tail@ + text@.subrange(start as int, at as int),
                }),
        {
            let ghost before = start_frame.write(text@.take(at as int));
            proof {
                lemma_write_push(start_frame, text@.take(at as int), c);
                assert(text@.take(at as int).push(c) =~= text@.take(at + 1));
            }
            if c == '\n' {
                tail.append(text.substring_char(start, at));
                rows.push(tail);
                tail = String::new();
                start = at + 1;
                proof {
                    assert(texts(rows@) =~= before.rows.push(before.tail));
                    assert(tail@ + text@.subrange(start as int, at + 1) =~= Seq::<char>::empty());
                }
            } else {
                proof {
                    assert(tail@ + text@.subrange(start as int, at + 1) =~= before.tail.push(c));
                }
            }
            at = at + 1;
        }
        tail.append(text.substring_char(start, len));
        proof {
            assert(text@.take(len as int) =~= text@);
        }
        Sheet { rows, tail }
    }

    /// Drops the unfinished line and the `count` lines before it.
    fn erase(self, count: usize) -> (sheet: Sheet)
        ensures
            sheet.frame() == self.frame().erase(count as nat),
    {
        let mut rows = self.rows;
        let kept: usize = if count >= rows.len() {
            0
        } else {
            rows.len() - count
        };
        rows.truncate(kept);
        proof {
            assert(texts(rows@) =~= texts(self.rows@).take(kept as int));
        }
        Sheet { rows, tail: String::new() }
    }

    /// Carries out `event` where it was accepted.
    fn after(self, event: &Event) -> (sheet: Sheet)
        ensures
            sheet.frame() == self.frame().after(event@),
    {
        match event {
            Event::Erase(count, Ok(_)) => self.erase(*count),
            Event::Line(text, Ok(_)) => self.write(text.as_str()).end_line(),
            Event::Raw(text, Ok(_)) => self.write(text.as_str()),
            _ => self,
        }
    }

    /// The lines that can be seen.
    fn lines(self) -> (lines: Vec<String>)
        ensures
            texts(lines@) == self.frame().lines(),
    {
        let mut lines = self.rows;
        if !self.tail.as_str().is_empty() {
            lines.push(self.tail);
            proof {
                assert(texts(lines@) =~= texts(self.rows@).push(self.tail@));
            }
        }
        lines
    }
}

/// An output target that writes nowhere and keeps every exchange. It can be
/// told to refuse every write after a number of them, and to be unable to
/// tell how many lines it shows.
pub struct Recorder {
    events: Vec<Event>,
    breaks: Option<(usize, WriteError)>,
    measures: bool,
}

impl Recorder {
    /// Every exchange so far, oldest first.
    pub closed spec fn transcript(&self) -> Seq<Exchange> {
        exchanges(self.events@)
    }

    /// How many more writes are accepted; `None` where all of them are.
    pub closed spec fn left(&self) -> Option<nat> {
        match self.breaks {
            Some((left, _)) => Some(left as nat),
            None => None,
        }
    }

    /// The failure with which writes are refused once none is left.
    pub closed spec fn failure(&self) -> Option<WriteError> {
        match self.breaks {
            Some((_, failure)) => Some(failure),
            None => None,
        }
    }

    /// Whether the recorder tells how many lines it shows.
    pub closed spec fn measures(&self) -> bool {
        self.measures
    }

    /// What the next write is answered with.
    pub open spec fn verdict(&self) -> Result<(), WriteError> {
        if self.left() == Some(0nat) {
            Err(self.failure()->Some_0)
        } else {
            Ok(())
        }
    }

    /// What the recorder is like after a write: one write fewer is left,
    /// nothing else has changed but the transcript.
    pub open spec fn spent(&self, next: &Recorder) -> bool {
        &&& next.failure() == self.failure()
        &&& next.measures() == self.measures()
        &&& next.left() == match self.left() {
            Some(left) => Some(if left > 0 { (left - 1) as nat } else { 0 }),
            None => None,
        }
    }

    /// A recorder that accepts every write and tells its lines.
    pub fn new() -> (recorder: Recorder)
        ensures
            recorder.transcript() == Seq::<Exchange>::empty(),
            recorder.left() is None,
            recorder.failure() is None,
            recorder.measures(),
    {
        let recorder = Recorder { events: Vec::new(), breaks: None, measures: true };
        proof {
            assert(recorder.transcript() =~= Seq::<Exchange>::empty());
        }
        recorder
    }

    /// The same recorder, but it accepts only `accepted` more writes and
    /// refuses every later one with `failure`.
    pub fn failing_after(self, accepted: usize, failure: WriteError) -> (recorder: Recorder)
        ensures
            recorder.transcript() == self.transcript(),
            recorder.left() == Some(accepted as nat),
            recorder.failure() == Some(failure),
            recorder.measures() == self.measures(),
    {
        Recorder { events: self.events, breaks: Some((accepted, failure)), measures: self.measures }
    }

    /// The same recorder, but it cannot tell how many lines it shows.
    pub fn unmeasured(self) -> (recorder: Recorder)
        ensures
            recorder.transcript() == self.transcript(),
            recorder.left() == self.left(),
            recorder.failure() == self.failure(),
            !recorder.measures(),
    {
        Recorder { events: self.events, breaks: self.breaks, measures: false }
    }

    /// Every exchange so far, oldest first.
    pub fn events(&self) -> (events: &Vec<Event>)
        ensures
            exchanges(events@) == self.transcript(),
    {
        &self.events
    }

    /// The lines that a screen shows after the exchanges so far.
    pub fn lines(&self) -> (lines: Vec<String>)
        ensures
            texts(lines@) == shown(self.transcript()).lines(),
    {
        let mut sheet = Sheet::blank();
        let mut at: usize = 0;
        while at < self.events.len()
            invariant
                at <= self.events.len(),
                sheet.frame() == shown(self.transcript().take(at as int)),
            decreases self.events.len() - at,
        {
            proof {
                lemma_replay_push(
                    Frame::blank(),
                    self.transcript().take(at as int),
                    self.events[at as int]@,
                );
                assert(self.transcript().take(at as int).push(self.events[at as int]@)
                    =~= self.transcript().take(at + 1));
            }
            sheet = sheet.after(&self.events[at]);
            at = at + 1;
        }
        proof {
            assert(self.transcript().take(at as int) =~= self.transcript());
        }
        sheet.lines()
    }

    /// Settles the next write: the verdict on it, and one write fewer left.
    fn settle(&mut self) -> (outcome: Result<(), WriteError>)
        ensures
            outcome == old(self).verdict(),
            old(self).spent(final(self)),
            final(self).transcript() == old(self).transcript(),
    {
        match &mut self.breaks {
            Some((left, failure)) => {
                if *left == 0 {
                    Err(failure.clone())
                } else {
                    *left = *left - 1;
                    Ok(())
                }
            },
            None => Ok(()),
        }
    }

    /// Adds `event` to the record.
    fn note(&mut self, event: Event)
        ensures
            final(self).transcript() == old(self).transcript().push(event@),
            final(self).left() == old(self).left(),
            final(self).failure() == old(self).failure(),
            final(self).measures() == old(self).measures(),
    {
        self.events.push(event);
        proof {
            assert(self.transcript() =~= old(self).transcript().push(event@));
        }
    }
}

impl Target for Recorder {
    open spec fn record(&self) -> Option<Seq<Exchange>> {
        Some(self.transcript())
    }

    open spec fn pristine(&self) -> bool {
        &&& self.transcript() == Seq::<Exchange>::empty()
        &&& self.left() is None
        &&& self.failure() is None
        &&& self.measures()
    }

    fn standard() -> (recorder: Recorder) {
        Recorder::new()
    }

    fn write_line(&mut self, text: &str) -> (outcome: Result<(), WriteError>)
        ensures
            outcome == old(self).verdict(),
            old(self).spent(final(self)),
            final(self).transcript() == old(self).transcript().push(Exchange::Line(text@, outcome)),
    {
        let outcome = self.settle();
        self.note(Event::Line(String::from_str(text), copy_of(&outcome)));
        outcome
    }

    fn write_str(&mut self, text: &str) -> (outcome: Result<(), WriteError>)
        ensures
            outcome == old(self).verdict(),
            old(self).spent(final(self)),
            final(self).transcript() == old(self).transcript().push(Exchange::Raw(text@, outcome)),
    {
        let outcome = self.settle();
        self.note(Event::Raw(String::from_str(text), copy_of(&outcome)));
        outcome
    }

    fn clear_last_lines(&mut self, count: usize) -> (outcome: Result<(), WriteError>)
        ensures
            outcome == old(self).verdict(),
            old(self).spent(final(self)),
            final(self).transcript() == old(self).transcript().push(
                Exchange::Erase(count as nat, outcome),
            ),
    {
        let outcome = self.settle();
        self.note(Event::Erase(count, copy_of(&outcome)));
        outcome
    }

    fn visible_lines(&mut self) -> (answer: Option<usize>)
        ensures
            answer == (if old(self).measures() {
                Some(shown(old(self).transcript()).lines().len() as usize)
            } else {
                None
            }),
            answer matches Some(lines) ==> lines == shown(old(self).transcript()).lines().len(),
            final(self).transcript() == old(self).transcript().push(Exchange::Measure(answer)),
            final(self).left() == old(self).left(),
            final(self).failure() == old(self).failure(),
            final(self).measures() == old(self).measures(),
    {
        let answer = if self.measures {
            Some(self.lines().len())
        } else {
            None
        };
        self.note(Event::Measure(answer));
        answer
    }
}

} // verus!
