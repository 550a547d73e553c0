//! The router bound to its terminal.

use vstd::prelude::*;
use vstd::view::View as _;
use crate::error::WriteError;
use crate::router::Router;
use crate::terminal::{Clearing, Target, Terminal};
use crate::view::View;

verus! {

/// View based routing for a terminal: a `Construct` holds the terminal and
/// the router, and displays one view at a time.
pub struct Construct<T: Target> {
    terminal: Terminal<T>,
    router: Router,
}

impl<T: Target> Construct<T> {
    /// The terminal that is written to.
    pub closed spec fn spec_terminal(&self) -> &Terminal<T> {
        &self.terminal
    }

    /// The router that displays the views.
    pub closed spec fn spec_router(&self) -> &Router {
        &self.router
    }

    /// A `Construct` on the standard target, without a logo, that wipes the
    /// screen exactly. Nothing is asked of the target yet.
    pub fn new() -> (construct: Construct<T>)
        ensures
            construct.router().logo() is None,
            construct.router().clearing() == Clearing::Exact,
            construct.terminal().fresh(),
            construct.terminal().inner().pristine(),
    {
        Construct {
            terminal: Terminal::new(T::standard()),
            router: Router::new(None, Clearing::Exact),
        }
    }

    /// A builder that starts from what `new` gives.
    pub fn builder() -> (builder: ConstructBuilder<T>)
        ensures
            builder.terminal() is None,
            builder.logo() is None,
            builder.clearing() == Clearing::Exact,
    {
        ConstructBuilder { terminal: None, logo: None, clearing: Clearing::Exact }
    }

    /// The terminal that is written to.
    #[verifier::when_used_as_spec(spec_terminal)]
    pub fn terminal(&self) -> (terminal: &Terminal<T>)
        ensures
            terminal == self.spec_terminal(),
    {
        &self.terminal
    }

    /// The terminal, to write to it between two displays.
    pub fn terminal_mut(&mut self) -> (terminal: &mut Terminal<T>)
        ensures
            *terminal == *old(self).terminal(),
            *final(self).terminal() == *final(terminal),
            final(self).router() == old(self).router(),
    {
        &mut self.terminal
    }

    /// Gives the terminal back.
    pub fn into_terminal(self) -> (terminal: Terminal<T>)
        ensures
            terminal == *self.terminal(),
    {
        self.terminal
    }

    /// The router that displays the views.
    #[verifier::when_used_as_spec(spec_router)]
    pub fn router(&self) -> (router: &Router)
        ensures
            router == self.spec_router(),
    {
        &self.router
    }

    /// Displays `view` in the terminal: wipes the screen, writes the logo
    /// where one is configured, writes the view's title, and lets the view
    /// render its content. The first refused request ends the display with
    /// the target's failure. The router stays as it is.
    pub fn view<V: View<T>>(&mut self, view: V) -> (outcome: Result<(), WriteError>)
        ensures
            final(self).router() == old(self).router(),
            old(self).terminal().in_step() ==> final(self).terminal().in_step(),
            exists|answer: Option<usize>, title: Seq<char>|
                view.titled(title) && #[trigger] old(self).router().displays(
                    view,
                    answer,
                    title,
                    old(self).terminal().log(),
                    final(self).terminal().log(),
                    outcome,
                ),
    {
        let ghost before = self.terminal.log();
        let outcome = self.router.view(&mut self.terminal, view);
        proof {
            let (answer, title) = choose|answer: Option<usize>, title: Seq<char>|
                view.titled(title) && #[trigger] self.router.displays(
                    view,
                    answer,
                    title,
                    before,
                    self.terminal.log(),
                    outcome,
                );
            assert(old(self).router().displays(
                view,
                answer,
                title,
                old(self).terminal().log(),
                self.terminal().log(),
                outcome,
            ));
        }
        outcome
    }
}

/// Builder for a `Construct`.
pub struct ConstructBuilder<T: Target> {
    terminal: Option<T>,
    logo: Option<String>,
    clearing: Clearing,
}

impl<T: Target> ConstructBuilder<T> {
    /// The target that was given, if any.
    pub closed spec fn terminal(&self) -> Option<T> {
        self.terminal
    }

    /// The text of the logo, where one was given.
    pub closed spec fn logo(&self) -> Option<Seq<char>> {
        match self.logo {
            Some(logo) => Some(logo@),
            None => None,
        }
    }

    /// How the screen is to be wiped.
    pub closed spec fn clearing(&self) -> Clearing {
        self.clearing
    }

    /// Names the target to write to.
    pub fn with_terminal(self, terminal: T) -> (builder: ConstructBuilder<T>)
        ensures
            builder.terminal() == Some(terminal),
            builder.logo() == self.logo(),
            builder.clearing() == self.clearing(),
    {
        ConstructBuilder { terminal: Some(terminal), logo: self.logo, clearing: self.clearing }
    }

    /// Adds a logo, to be written above every title.
    pub fn with_logo(self, logo: String) -> (builder: ConstructBuilder<T>)
        ensures
            builder.terminal() == self.terminal(),
            builder.logo() == Some(logo@),
            builder.clearing() == self.clearing(),
    {
        ConstructBuilder { terminal: self.terminal, logo: Some(logo), clearing: self.clearing }
    }

    /// Chooses how the screen is wiped.
    pub fn with_clearing(self, clearing: Clearing) -> (builder: ConstructBuilder<T>)
        ensures
            builder.terminal() == self.terminal(),
            builder.logo() == self.logo(),
            builder.clearing() == clearing,
    {
        ConstructBuilder { terminal: self.terminal, logo: self.logo, clearing }
    }

    /// Builds the `Construct`. Where a target was named, it is bound as it
    /// was given; where none was, the standard one is bound. Nothing is asked
    /// of the target yet.
    pub fn build(self) -> (construct: Construct<T>)
        ensures
            construct.router().logo() == self.logo(),
            construct.router().clearing() == self.clearing(),
            construct.terminal().fresh(),
            self.terminal() matches Some(target) ==> construct.terminal().inner() == target,
            self.terminal() is None ==> construct.terminal().inner().pristine(),
    {
        let target = match self.terminal {
            Some(target) => target,
            None => T::standard(),
        };
        Construct { terminal: Terminal::new(target), router: Router::new(self.logo, self.clearing) }
    }
}

} // verus!
