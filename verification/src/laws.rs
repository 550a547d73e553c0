//! What holds of every display, proved from the contracts.

use vstd::prelude::*;
use crate::router::Router;
use crate::dialogue::{
    ends_at_refusal, halted, lemma_erase_all, lemma_replay_concat, lemma_replay_push,
    lemma_write_plain, shown, Exchange, Frame,
};
use crate::error::WriteError;
use crate::terminal::{Clearing, Target};
use crate::view::View;

verus! {

/// A wipe that the target accepts and that reaches every finished line
/// leaves an empty screen, however much stood on it; and a wipe of an empty
/// screen leaves it empty. Under `FixedBound` the wipe reaches every line as
/// long as no more lines than the bound stand on the screen; under `Exact` it
/// does so whenever the target tells at least as many lines as it shows.
pub proof fn law_wipe_resets(clearing: Clearing, answer: Option<usize>, before: Seq<Exchange>)
    requires
        clearing.count(answer) >= shown(before).rows.len(),
    ensures
        shown(before + clearing.wipe(answer, Ok(()))) == Frame::blank(),
        Frame::blank().replay(clearing.wipe(answer, Ok(()))) == Frame::blank(),
{
    let wipe = clearing.wipe(answer, Ok(()));
    let erase = Exchange::Erase(clearing.count(answer), Ok(()));
    lemma_replay_concat(Frame::blank(), before, wipe);
    lemma_erase_all(shown(before), clearing.count(answer));
    lemma_erase_all(Frame::blank(), clearing.count(answer));
    assert forall|frame: Frame| #[trigger]
        frame.replay(wipe) == frame.erase(clearing.count(answer)) by {
        assert(wipe.drop_last().len() == 0 || wipe.drop_last().drop_last().len() == 0);
        assert(wipe.last() == erase);
        assert(frame.replay(wipe) == frame.replay(wipe.drop_last()).after(erase));
        if wipe.drop_last().len() > 0 {
            assert(wipe.drop_last().last() is Measure);
            assert(frame.replay(wipe.drop_last()) == frame.replay(
                wipe.drop_last().drop_last(),
            ).after(wipe.drop_last().last()));
        }
    }
}

/// On an empty screen the masthead is the logo, where one is configured, in
/// the first line and the title in the line below it, as long as neither
/// holds a line feed.
pub proof fn law_masthead_lines(router: &Router, title: Seq<char>)
    requires
        !title.contains('\n'),
        router.logo() matches Some(logo) ==> !logo.contains('\n'),
    ensures
        Frame::blank().replay(router.masthead(title)) == (Frame {
            rows: match router.logo() {
                Some(logo) => seq![logo, title],
                None => seq![title],
            },
            tail: Seq::empty(),
        }),
{
    let title_line = Exchange::Line(title, Ok(()));
    let empty = Seq::<Exchange>::empty();
    assert(Frame::blank().replay(empty) == Frame::blank());
    match router.logo() {
        Some(logo) => {
            let logo_line = Exchange::Line(logo, Ok(()));
            lemma_replay_push(Frame::blank(), empty, logo_line);
            lemma_replay_push(Frame::blank(), empty.push(logo_line), title_line);
            assert(router.masthead(title) =~= empty.push(logo_line).push(title_line));
            lemma_write_plain(Frame::blank(), logo);
            let first = Frame::blank().after(logo_line);
            assert(first.rows =~= seq![logo]);
            lemma_write_plain(first, title);
            assert(first.after(title_line).rows =~= seq![logo, title]);
        },
        None => {
            lemma_replay_push(Frame::blank(), empty, title_line);
            assert(router.masthead(title) =~= empty.push(title_line));
            lemma_write_plain(Frame::blank(), title);
            assert(Frame::blank().after(title_line).rows =~= seq![title]);
        },
    }
}

/// A display that no refusal cut short, of a view whose content always
/// succeeds, ends well and has written, in this order: the wipe, the logo
/// where one is configured, the title, and after them whatever the content
/// wrote.
pub proof fn law_display_writes_in_order<T: Target, V: View<T>>(
    router: &Router,
    view: V,
    answer: Option<usize>,
    title: Seq<char>,
    before: Seq<Exchange>,
    after: Seq<Exchange>,
    outcome: Result<(), WriteError>,
)
    requires
        router.displays(view, answer, title, before, after, outcome),
        forall|failure: WriteError|
            !halted(router.opening(answer, title), before, after, failure),
        forall|
            any: &Router,
            from: Seq<Exchange>,
            to: Seq<Exchange>,
            end: Result<(), WriteError>,
        | #[trigger] view.paints(any, from, to, end) ==> end is Ok,
    ensures
        outcome is Ok,
        after == before + router.clearing().wipe(answer, Ok(())) + router.masthead(title)
            + after.skip((before.len() + router.opening(answer, title).len()) as int),
{
    let plan = router.opening(answer, title);
    assert((before + plan).is_prefix_of(after));
    assert(after =~= before + plan + after.skip((before.len() + plan.len()) as int));
    assert(before + plan =~= before + router.clearing().wipe(answer, Ok(()))
        + router.masthead(title));
}

/// Where a logo is configured, every display that gets as far as its title
/// has written the logo in the line before it.
pub proof fn law_logo_precedes_title<T: Target, V: View<T>>(
    router: &Router,
    view: V,
    answer: Option<usize>,
    title: Seq<char>,
    before: Seq<Exchange>,
    after: Seq<Exchange>,
    outcome: Result<(), WriteError>,
)
    requires
        router.displays(view, answer, title, before, after, outcome),
        router.logo() is Some,
        after.len() >= before.len() + router.opening(answer, title).len(),
    ensures
        ({
            let at = before.len() + router.opening(answer, title).len() - 1;
            &&& after[at - 1] == Exchange::Line(router.logo()->Some_0, Ok(()))
            &&& after[at] matches Exchange::Line(text, _) && text == title
        }),
{
    let plan = router.opening(answer, title);
    let wipe = router.clearing().wipe(answer, Ok(()));
    let at = before.len() + plan.len() - 1;
    assert(plan.len() == wipe.len() + 2);
    assert(plan[plan.len() - 2] == Exchange::Line(router.logo()->Some_0, Ok(())));
    assert(plan[plan.len() - 1] == Exchange::Line(title, Ok(())));
    if (before + plan).is_prefix_of(after) {
        assert(after[at] == (before + plan)[at]);
        assert(after[at - 1] == (before + plan)[at - 1]);
    } else {
        let failure = outcome->Err_0;
        assert(halted(plan, before, after, failure));
        let cut = plan.take(plan.len() - 1).push(plan[plan.len() - 1].refused(failure));
        assert(after == before + cut);
        assert(after[at] == cut[plan.len() - 1]);
        assert(after[at - 1] == cut[plan.len() - 2]);
    }
}

/// Where the target refuses a request of the opening, the display returns the
/// target's failure and asks nothing more of the target.
pub proof fn law_refusal_ends_display<T: Target, V: View<T>>(
    router: &Router,
    view: V,
    answer: Option<usize>,
    title: Seq<char>,
    before: Seq<Exchange>,
    after: Seq<Exchange>,
    outcome: Result<(), WriteError>,
    at: int,
)
    requires
        router.displays(view, answer, title, before, after, outcome),
        before.len() <= at < after.len(),
        at < before.len() + router.opening(answer, title).len(),
        after[at].outcome() is Err,
    ensures
        outcome == after[at].outcome(),
        after.len() == at + 1,
{
    let plan = router.opening(answer, title);
    assert(forall|i: int| 0 <= i < plan.len() ==> (#[trigger] plan[i]).outcome() is Ok);
    if (before + plan).is_prefix_of(after) {
        assert(after[at] == (before + plan)[at]);
        assert(after[at] == plan[at - before.len()]);
    } else {
        let failure = outcome->Err_0;
        let stop = after.len() - before.len() - 1;
        let cut = plan.take(stop).push(plan[stop].refused(failure));
        assert(after == before + cut);
        assert(after[at] == cut[at - before.len()]);
        if at - before.len() < stop {
            assert(cut[at - before.len()] == plan[at - before.len()]);
        }
    }
}

/// Where the view promises that its content ends at the first refusal and
/// returns it, the whole display does: whichever request the target refuses,
/// the display asks nothing more and returns the target's failure.
pub proof fn law_refusal_ends_display_throughout<T: Target, V: View<T>>(
    router: &Router,
    view: V,
    answer: Option<usize>,
    title: Seq<char>,
    before: Seq<Exchange>,
    after: Seq<Exchange>,
    outcome: Result<(), WriteError>,
)
    requires
        router.displays(view, answer, title, before, after, outcome),
        forall|
            any: &Router,
            from: Seq<Exchange>,
            to: Seq<Exchange>,
            end: Result<(), WriteError>,
        | #[trigger] view.paints(any, from, to, end) ==> ends_at_refusal(from, to, end),
    ensures
        ends_at_refusal(before, after, outcome),
{
    let plan = router.opening(answer, title);
    assert(forall|i: int| 0 <= i < plan.len() ==> (#[trigger] plan[i]).outcome() is Ok);
    if (before + plan).is_prefix_of(after) && view.paints(
        router,
        before + plan,
        after,
        outcome,
    ) {
        assert(ends_at_refusal(before + plan, after, outcome));
        assert(before.is_prefix_of(after)) by {
            assert(after.take(before.len() as int) =~= (before + plan).take(before.len() as int));
        }
        assert forall|at: int|
            before.len() <= at < after.len() && (#[trigger] after[at]).outcome() is Err implies at
            == after.len() - 1 && outcome == after[at].outcome() by {
            if at < before.len() + plan.len() {
                assert(after[at] == (before + plan)[at]);
                assert(after[at] == plan[at - before.len()]);
            }
        }
    } else {
        let failure = outcome->Err_0;
        let stop = after.len() - before.len() - 1;
        let cut = plan.take(stop).push(plan[stop].refused(failure));
        assert(after == before + cut);
        assert(after.take(before.len() as int) =~= before);
        assert forall|at: int|
            before.len() <= at < after.len() && (#[trigger] after[at]).outcome() is Err implies at
            == after.len() - 1 && outcome == after[at].outcome() by {
            assert(after[at] == cut[at - before.len()]);
            if at - before.len() < stop {
                assert(cut[at - before.len()] == plan[at - before.len()]);
            }
        }
    }
}

/// A display whose wipe the target accepted, and whose wipe reached every
/// finished line, leaves nothing of what stood on the screen before it, the
/// output of an earlier display included: the screen shows what the
/// exchanges after the wipe put on an empty screen. Where the whole opening
/// was accepted, that is the masthead and below it what the content wrote.
pub proof fn law_display_leaves_no_residue<T: Target, V: View<T>>(
    router: &Router,
    view: V,
    answer: Option<usize>,
    title: Seq<char>,
    before: Seq<Exchange>,
    after: Seq<Exchange>,
    outcome: Result<(), WriteError>,
)
    requires
        router.displays(view, answer, title, before, after, outcome),
        after.len() >= before.len() + router.clearing().steps(),
        after[before.len() + router.clearing().steps() - 1].outcome() is Ok,
        router.clearing().count(answer) >= shown(before).rows.len(),
    ensures
        shown(after) == Frame::blank().replay(
            after.skip((before.len() + router.clearing().steps()) as int),
        ),
        (before + router.opening(answer, title)).is_prefix_of(after) ==> shown(after)
            == Frame::blank().replay(router.masthead(title)).replay(
            after.skip((before.len() + router.opening(answer, title).len()) as int),
        ),
{
    let plan = router.opening(answer, title);
    let wipe = router.clearing().wipe(answer, Ok(()));
    let masthead = router.masthead(title);
    let rest = after.skip((before.len() + wipe.len()) as int);
    assert(plan.take(wipe.len() as int) =~= wipe);
    assert((before + wipe).is_prefix_of(after)) by {
        if (before + plan).is_prefix_of(after) {
            assert((before + plan).take((before.len() + wipe.len()) as int) =~= before + wipe);
            assert(after.take((before.len() + wipe.len()) as int) =~= (before + plan).take(
                (before.len() + wipe.len()) as int,
            ));
        } else {
            let failure = outcome->Err_0;
            let stop = after.len() - before.len() - 1;
            let cut = plan.take(stop).push(plan[stop].refused(failure));
            assert(after == before + cut);
            assert(after[before.len() + wipe.len() - 1] == cut[wipe.len() - 1]);
            assert(stop >= wipe.len());
            assert(cut.take(wipe.len() as int) =~= wipe);
            assert(after.take((before.len() + wipe.len()) as int) =~= before + wipe);
        }
    }
    assert(after =~= (before + wipe) + rest);
    lemma_replay_concat(Frame::blank(), before + wipe, rest);
    law_wipe_resets(router.clearing(), answer, before);
    if (before + plan).is_prefix_of(after) {
        let below = after.skip((before.len() + plan.len()) as int);
        assert(plan.len() == wipe.len() + masthead.len());
        assert forall|i: int| 0 <= i < masthead.len() implies rest[i] == masthead[i] by {
            assert(rest[i] == after[before.len() + wipe.len() + i]);
            assert(after[before.len() + wipe.len() + i] == (before + plan)[before.len()
                + wipe.len() + i]);
        }
        assert(rest =~= masthead + below);
        lemma_replay_concat(Frame::blank(), masthead, below);
    }
}

/// Two displays in a row by one router: where the second one's wipe is
/// accepted and reaches every finished line, the screen shows nothing of the
/// first one's output, only what the second put on an empty screen after its
/// wipe.
pub proof fn law_second_display_replaces_first<T: Target, A: View<T>, B: View<T>>(
    router: &Router,
    first: A,
    second: B,
    first_answer: Option<usize>,
    first_title: Seq<char>,
    first_outcome: Result<(), WriteError>,
    answer: Option<usize>,
    title: Seq<char>,
    outcome: Result<(), WriteError>,
    start: Seq<Exchange>,
    between: Seq<Exchange>,
    end: Seq<Exchange>,
)
    requires
        router.displays(first, first_answer, first_title, start, between, first_outcome),
        router.displays(second, answer, title, between, end, outcome),
        end.len() >= between.len() + router.clearing().steps(),
        end[between.len() + router.clearing().steps() - 1].outcome() is Ok,
        router.clearing().count(answer) >= shown(between).rows.len(),
    ensures
        shown(end) == Frame::blank().replay(
            end.skip((between.len() + router.clearing().steps()) as int),
        ),
        (between + router.opening(answer, title)).is_prefix_of(end) ==> shown(end)
            == Frame::blank().replay(router.masthead(title)).replay(
            end.skip((between.len() + router.opening(answer, title).len()) as int),
        ),
{
    law_display_leaves_no_residue(router, second, answer, title, between, end, outcome);
}

} // verus!
