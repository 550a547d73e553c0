//! The contract between a screen and the router that shows it.

use vstd::prelude::*;
use vstd::view::View as _;
use crate::router::Router;
use crate::dialogue::Exchange;
use crate::error::WriteError;
use crate::terminal::{Target, Terminal};

verus! {

/// One screen of an application: a title and a renderer of its content.
///
/// The two spec functions say what an implementation promises of its title
/// and of its content. An implementation that promises nothing leaves them as
/// they are.
pub trait View<T: Target>: Sized {
    /// Whether `title` is a heading that this view may give itself.
    open spec fn titled(&self, title: Seq<char>) -> bool {
        true
    }

    /// Whether rendering the content for `router` may turn the dialogue
    /// `before` into `after` and end with `outcome`.
    open spec fn paints(
        self,
        router: &Router,
        before: Seq<Exchange>,
        after: Seq<Exchange>,
        outcome: Result<(), WriteError>,
    ) -> bool {
        true
    }

    /// The heading of the screen.
    fn title(&self) -> (title: String)
        ensures
            self.titled(title@),
    ;

    /// Renders the screen below its heading. The view may write to
    /// `terminal` and may display another view through `router`; it only ever
    /// adds to the dialogue, and it talks to the target through `terminal`
    /// alone.
    fn content(self, terminal: &mut Terminal<T>, router: &Router) -> (outcome: Result<
        (),
        WriteError,
    >)
        ensures
            old(terminal).log().is_prefix_of(final(terminal).log()),
            old(terminal).in_step() ==> final(terminal).in_step(),
            self.paints(router, old(terminal).log(), final(terminal).log(), outcome),
    ;
}

} // verus!
