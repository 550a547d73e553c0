use construct::{
    Clear, Clearing, Event, Recorder, Terminal, WriteError, WriteLineBreak, FALLBACK_LINES,
};

fn text(line: &str) -> String {
    String::from(line)
}

fn closed() -> WriteError {
    WriteError::new(text("closed descriptor"))
}

#[test]
fn fallback_is_nine_hundred_ninety_nine_lines() {
    assert_eq!(FALLBACK_LINES, 999);
}

#[test]
fn exact_erases_what_the_target_tells() {
    assert_eq!(Clearing::Exact.lines_to_erase(Some(0)), 0);
    assert_eq!(Clearing::Exact.lines_to_erase(Some(24)), 24);
    assert_eq!(Clearing::Exact.lines_to_erase(Some(usize::MAX)), usize::MAX);
}

#[test]
fn exact_falls_back_without_an_answer() {
    assert_eq!(Clearing::Exact.lines_to_erase(None), 999);
}

#[test]
fn fixed_bound_erases_the_bound_whatever_the_answer() {
    assert_eq!(Clearing::FixedBound(7).lines_to_erase(None), 7);
    assert_eq!(Clearing::FixedBound(7).lines_to_erase(Some(3)), 7);
    assert_eq!(Clearing::FixedBound(0).lines_to_erase(Some(3)), 0);
}

#[test]
fn handle_passes_every_request_on() {
    let mut terminal = Terminal::new(Recorder::new());
    assert_eq!(terminal.write_line("one"), Ok(()));
    assert_eq!(terminal.write_str("two"), Ok(()));
    assert_eq!(terminal.visible_lines(), Some(2));
    assert_eq!(terminal.clear_last_lines(1), Ok(()));
    assert_eq!(terminal.visible_lines(), Some(0));
    assert_eq!(
        terminal.target().events(),
        &vec![
            Event::Line(text("one"), Ok(())),
            Event::Raw(text("two"), Ok(())),
            Event::Measure(Some(2)),
            Event::Erase(1, Ok(())),
            Event::Measure(Some(0)),
        ]
    );
}

#[test]
fn handle_hands_the_failure_back() {
    let mut terminal = Terminal::new(Recorder::new().failing_after(0, closed()));
    assert_eq!(terminal.write_line("one"), Err(closed()));
    assert_eq!(terminal.write_str("two"), Err(closed()));
    assert_eq!(terminal.clear_last_lines(1), Err(closed()));
    assert_eq!(terminal.visible_lines(), Some(0));
}

#[test]
fn into_target_gives_the_target_back() {
    let mut terminal = Terminal::new(Recorder::new());
    assert_eq!(terminal.write_line("kept"), Ok(()));
    let recorder = terminal.into_target();
    assert_eq!(recorder.lines(), vec![text("kept")]);
}

#[test]
fn line_break_writes_an_empty_line() {
    let mut terminal = Terminal::new(Recorder::new());
    assert_eq!(terminal.write_line_break(), Ok(()));
    assert_eq!(terminal.target().events(), &vec![Event::Raw(text("\n"), Ok(()))]);
    assert_eq!(terminal.target().lines(), vec![String::new()]);
}

#[test]
fn line_break_ends_an_unfinished_line() {
    let mut terminal = Terminal::new(Recorder::new());
    assert_eq!(terminal.write_str("name: "), Ok(()));
    assert_eq!(terminal.write_line_break(), Ok(()));
    assert_eq!(terminal.write_line("next"), Ok(()));
    assert_eq!(terminal.target().lines(), vec![text("name: "), text("next")]);
}

#[test]
fn line_break_hands_the_failure_back() {
    let mut terminal = Terminal::new(Recorder::new().failing_after(0, closed()));
    assert_eq!(terminal.write_line_break(), Err(closed()));
    assert_eq!(terminal.target().lines(), Vec::<String>::new());
}

#[test]
fn clear_erases_what_is_shown() {
    let mut terminal = Terminal::new(Recorder::new());
    assert_eq!(terminal.write_line("one"), Ok(()));
    assert_eq!(terminal.write_line("two"), Ok(()));
    assert_eq!(terminal.write_str("three"), Ok(()));
    assert_eq!(terminal.clear(), Ok(()));
    assert_eq!(terminal.target().lines(), Vec::<String>::new());
    let events = terminal.target().events();
    assert_eq!(events[3], Event::Measure(Some(3)));
    assert_eq!(events[4], Event::Erase(3, Ok(())));
}

#[test]
fn clear_twice_is_clear_once() {
    let mut terminal = Terminal::new(Recorder::new());
    assert_eq!(terminal.write_line("one"), Ok(()));
    assert_eq!(terminal.clear(), Ok(()));
    assert_eq!(terminal.clear(), Ok(()));
    assert_eq!(terminal.target().lines(), Vec::<String>::new());
    assert_eq!(terminal.write_line("two"), Ok(()));
    assert_eq!(terminal.target().lines(), vec![text("two")]);
}

#[test]
fn clear_falls_back_where_the_target_cannot_measure() {
    let mut terminal = Terminal::new(Recorder::new().unmeasured());
    assert_eq!(terminal.write_line("one"), Ok(()));
    assert_eq!(terminal.clear(), Ok(()));
    assert_eq!(
        terminal.target().events(),
        &vec![
            Event::Line(text("one"), Ok(())),
            Event::Measure(None),
            Event::Erase(999, Ok(())),
        ]
    );
}

#[test]
fn clear_hands_the_failure_back() {
    let mut terminal = Terminal::new(Recorder::new().failing_after(1, closed()));
    assert_eq!(terminal.write_line("one"), Ok(()));
    assert_eq!(terminal.clear(), Err(closed()));
    assert_eq!(terminal.target().lines(), vec![text("one")]);
}

#[test]
fn wipe_with_a_bound_does_not_ask() {
    let mut terminal = Terminal::new(Recorder::new());
    assert_eq!(terminal.write_line("one"), Ok(()));
    assert_eq!(terminal.write_line("two"), Ok(()));
    assert_eq!(terminal.wipe(Clearing::FixedBound(1)), Ok(()));
    assert_eq!(terminal.target().lines(), vec![text("one")]);
    assert_eq!(terminal.target().events().len(), 3);
    assert_eq!(terminal.target().events()[2], Event::Erase(1, Ok(())));
}

#[test]
fn wipe_exact_is_clear() {
    let mut wiped = Terminal::new(Recorder::new());
    let mut cleared = Terminal::new(Recorder::new());
    assert_eq!(wiped.write_line("one"), Ok(()));
    assert_eq!(cleared.write_line("one"), Ok(()));
    assert_eq!(wiped.wipe(Clearing::Exact), Ok(()));
    assert_eq!(cleared.clear(), Ok(()));
    assert_eq!(wiped.target().events(), cleared.target().events());
}
