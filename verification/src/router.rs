//! The router: what is written above every view, how the screen is wiped
//! before it, and the display of one view.

use vstd::prelude::*;
use vstd::view::View as _;
use crate::dialogue::{halted, Exchange};
use crate::error::WriteError;
use crate::terminal::{Clearing, Target, Terminal};
use crate::view::View;

verus! {

/// The rules of a display: a `Router` wipes the screen, writes its logo where
/// it has one, writes the title of the view that it is given, and lets the
/// view render the rest. A view is handed the router that displays it, and
/// may display another view through it.
pub struct Router {
    logo: Option<String>,
    clearing: Clearing,
}

impl Router {
    /// The text of the logo, where one is configured.
    pub closed spec fn logo(&self) -> Option<Seq<char>> {
        match self.logo {
            Some(logo) => Some(logo@),
            None => None,
        }
    }

    /// How the screen is wiped before a view is shown.
    pub closed spec fn clearing(&self) -> Clearing {
        self.clearing
    }

    /// The lines above a view's content where the target accepts them: the
    /// logo, if any, and then the title.
    pub open spec fn masthead(&self, title: Seq<char>) -> Seq<Exchange> {
        match self.logo() {
            Some(logo) => seq![Exchange::Line(logo, Ok(())), Exchange::Line(title, Ok(()))],
            None => seq![Exchange::Line(title, Ok(()))],
        }
    }

    /// The dialogue that comes before a view's content where the target
    /// accepts every request: the wipe, then the masthead.
    pub open spec fn opening(&self, answer: Option<usize>, title: Seq<char>) -> Seq<Exchange> {
        self.clearing().wipe(answer, Ok(())) + self.masthead(title)
    }

    /// Whether `begin` under `title` may turn the dialogue `before` into
    /// `after` and end with `outcome`, the target having answered `answer`
    /// where it was asked for its lines.
    pub open spec fn begins(
        &self,
        answer: Option<usize>,
        title: Seq<char>,
        before: Seq<Exchange>,
        after: Seq<Exchange>,
        outcome: Result<(), WriteError>,
    ) -> bool {
        match outcome {
            Ok(_) => after == before + self.opening(answer, title),
            Err(failure) => halted(self.opening(answer, title), before, after, failure),
        }
    }

    /// Whether showing `view` may turn the dialogue `before` into `after` and
    /// end with `outcome`, the view having called itself `title` and the
    /// target having answered `answer` where it was asked for its lines.
    /// Either a request of the opening was refused, and the display ended
    /// there with that failure; or the whole opening was accepted, the view
    /// rendered its content after it, and the outcome is the view's.
    pub open spec fn displays<T: Target, V: View<T>>(
        &self,
        view: V,
        answer: Option<usize>,
        title: Seq<char>,
        before: Seq<Exchange>,
        after: Seq<Exchange>,
        outcome: Result<(), WriteError>,
    ) -> bool {
        let plan = self.opening(answer, title);
        ||| outcome matches Err(failure) && halted(plan, before, after, failure)
        ||| (before + plan).is_prefix_of(after) && view.paints(
            self,
            before + plan,
            after,
            outcome,
        )
    }

    /// A router with this logo, if any, that wipes the screen as `clearing`
    /// says.
    pub fn new(logo: Option<String>, clearing: Clearing) -> (router: Router)
        ensures
            router.logo() == match logo {
                Some(text) => Some(text@),
                None => None,
            },
            router.clearing() == clearing,
    {
        Router { logo, clearing }
    }

    /// Wipes the screen and writes the masthead for a view called `title`.
    /// The first refused request ends the call with the target's failure.
    pub fn begin<T: Target>(&self, terminal: &mut Terminal<T>, title: &str) -> (outcome: Result<
        (),
        WriteError,
    >)
        ensures
            exists|answer: Option<usize>| #[trigger]
                self.begins(answer, title@, old(terminal).log(), final(terminal).log(), outcome),
            old(terminal).in_step() ==> final(terminal).in_step(),
    {
        let ghost before = terminal.log();
        let wiped = terminal.wipe(self.clearing);
        let ghost answer = choose|answer: Option<usize>|
            terminal.log() == before + #[trigger] self.clearing.wipe(answer, wiped);
        let ghost plan = self.opening(answer, title@);
        let ghost wipe = self.clearing.wipe(answer, Ok(()));
        let ghost masthead = self.masthead(title@);
        proof {
            assert(plan.take(wipe.len() as int) =~= wipe);
            assert(forall|i: int| 0 <= i < masthead.len() ==> plan[wipe.len() + i] == masthead[i]);
        }
        if let Err(failure) = wiped {
            proof {
                let at = wipe.len() - 1;
                assert(terminal.log() =~= before + plan.take(at).push(plan[at].refused(failure)));
                assert(self.begins(answer, title@, before, terminal.log(), Err(failure)));
            }
            return Err(failure);
        }
        proof {
            assert(wiped->Ok_0 == ());
        }
        if let Some(logo) = &self.logo {
            let written = terminal.write_line(logo.as_str());
            if let Err(failure) = written {
                proof {
                    let at = wipe.len() as int;
                    assert(terminal.log() =~= before + plan.take(at).push(
                        plan[at].refused(failure),
                    ));
                    assert(self.begins(answer, title@, before, terminal.log(), Err(failure)));
                }
                return Err(failure);
            }
            proof {
                assert(written->Ok_0 == ());
                assert(terminal.log() =~= before + plan.take(wipe.len() as int + 1));
            }
        }
        let outcome = terminal.write_line(title);
        proof {
            let at = plan.len() - 1;
            assert(terminal.log() =~= before + plan.take(at).push(Exchange::Line(title@, outcome)));
            if outcome is Ok {
                assert(outcome->Ok_0 == ());
                assert(plan.take(at).push(plan[at]) =~= plan);
            }
            assert(self.begins(answer, title@, before, terminal.log(), outcome));
        }
        outcome
    }

    /// Displays `view` in the terminal: wipes the screen, writes the logo
    /// where one is configured, writes the view's title, and lets the view
    /// render its content. The first refused request ends the display with
    /// the target's failure.
    pub fn view<T: Target, V: View<T>>(&self, terminal: &mut Terminal<T>, view: V) -> (outcome:
        Result<(), WriteError>)
        ensures
            exists|answer: Option<usize>, title: Seq<char>|
                view.titled(title) && #[trigger] self.displays(
                    view,
                    answer,
                    title,
                    old(terminal).log(),
                    final(terminal).log(),
                    outcome,
                ),
            old(terminal).in_step() ==> final(terminal).in_step(),
    {
        let ghost before = terminal.log();
        let title = view.title();
        let begun = self.begin(terminal, title.as_str());
        let ghost answer = choose|answer: Option<usize>| #[trigger]
            self.begins(answer, title@, before, terminal.log(), begun);
        match begun {
            Err(failure) => {
                proof {
                    assert(self.displays(
                        view,
                        answer,
                        title@,
                        before,
                        terminal.log(),
                        Err(failure),
                    ));
                }
                Err(failure)
            },
            Ok(_) => {
                let outcome = view.content(terminal, self);
                proof {
                    assert(self.displays(view, answer, title@, before, terminal.log(), outcome));
                }
                outcome
            },
        }
    }
}

} // verus!
