//! Materialized views, refreshed one after the other, each under a lock.
use crate::text::{joined, texts};
use vstd::prelude::*;

verus! {

/// Refreshes the materialized views.
pub struct RefreshMatviews;

/// A round of refreshes: all views, and how many of them are done with.
#[derive(Debug)]
pub struct MatviewRound {
    views: Vec<String>,
    refreshed: usize,
}

/// The contents of a `MatviewRound`.
pub struct MatviewRoundView {
    pub views: Seq<Seq<char>>,
    pub refreshed: int,
}

impl View for MatviewRound {
    type V = MatviewRoundView;

    closed spec fn view(&self) -> MatviewRoundView {
        MatviewRoundView { views: texts(self.views@), refreshed: self.refreshed as int }
    }
}

/// What comes next in a round.
#[derive(Debug)]
pub enum MatviewStep {
    /// Try to take the lock.
    Lock,
    /// Run this statement under the lock.
    Refresh { statement: String },
    /// There is nothing left to do, or another process holds the lock.
    Finished,
}

/// The contents of a `MatviewStep`.
pub enum MatviewStepView {
    Lock,
    Refresh(Seq<char>),
    Finished,
}

impl View for MatviewStep {
    type V = MatviewStepView;

    open spec fn view(&self) -> MatviewStepView {
        match *self {
            MatviewStep::Lock => MatviewStepView::Lock,
            MatviewStep::Refresh { statement } => MatviewStepView::Refresh(statement@),
            MatviewStep::Finished => MatviewStepView::Finished,
        }
    }
}

impl MatviewRoundView {
    /// Whether a view is left to be refreshed.
    pub open spec fn is_pending(self) -> bool {
        0 <= self.refreshed < self.views.len()
    }
}

impl MatviewRound {
    /// A round through these views.
    pub fn new(views: Vec<String>) -> (round: MatviewRound)
        ensures
            round@ == (MatviewRoundView { views: texts(views@), refreshed: 0 }),
            round@.refreshed == 0,
            round@.views.len() == views@.len(),
            forall|i: int| 0 <= i < views@.len() ==> #[trigger] round@.views[i] == views@[i]@,
    {
        MatviewRound { views, refreshed: 0 }
    }

    /// The step with which the next view begins.
    pub fn begin(&self) -> (step: MatviewStep)
        ensures
            step@ == if self@.is_pending() {
                MatviewStepView::Lock
            } else {
                MatviewStepView::Finished
            },
            step is Lock <==> 0 <= self@.refreshed < self@.views.len(),
            step !is Lock ==> step is Finished,
    {
        if self.refreshed < self.views.len() {
            MatviewStep::Lock
        } else {
            MatviewStep::Finished
        }
    }

    /// The step after the attempt to take the lock. Without it, the round is over.
    pub fn on_lock(&self, locked: bool) -> (step: MatviewStep)
        ensures
            step@ == if locked && self@.is_pending() {
                MatviewStepView::Refresh(
                    "refresh materialized view concurrently "@ + self@.views[self@.refreshed],
                )
            } else {
                MatviewStepView::Finished
            },
            step is Refresh <==> locked && 0 <= self@.refreshed < self@.views.len(),
            step !is Refresh ==> step is Finished,
            step matches MatviewStep::Refresh { statement } ==> statement@
                == "refresh materialized view concurrently "@ + self@.views[self@.refreshed],
    {
        if locked && self.refreshed < self.views.len() {
            MatviewStep::Refresh {
                statement: joined(
                    "refresh materialized view concurrently ",
                    self.views[self.refreshed].as_str(),
                ),
            }
        } else {
            MatviewStep::Finished
        }
    }

    /// Goes on to the view after the one that was refreshed.
    pub fn on_refreshed(self) -> (round: MatviewRound)
        ensures
            round@ == (MatviewRoundView {
                views: self@.views,
                refreshed: if self@.is_pending() {
                    self@.refreshed + 1
                } else {
                    self@.refreshed
                },
            }),
            round@.views == self@.views,
            0 <= self@.refreshed < self@.views.len() ==> round@.refreshed == self@.refreshed + 1,
            !(0 <= self@.refreshed < self@.views.len()) ==> round@.refreshed == self@.refreshed,
    {
        if self.refreshed < self.views.len() {
            MatviewRound { views: self.views, refreshed: self.refreshed + 1 }
        } else {
            self
        }
    }
}

impl RefreshMatviews {
    /// How often, in seconds, the views are refreshed.
    pub fn interval() -> (seconds: u64)
        ensures
            seconds == 10 * 60,
    {
        10 * 60
    }

    /// The views there are: none at present.
    pub fn matviews() -> (views: Vec<String>)
        ensures
            views@.len() == 0,
    {
        Vec::new()
    }
}

/// The round after `n` of its views were refreshed.
pub open spec fn after_refreshes(round: MatviewRoundView, n: nat) -> MatviewRoundView
    decreases n,
{
    if n == 0 {
        round
    } else {
        let earlier = after_refreshes(round, (n - 1) as nat);
        MatviewRoundView {
            views: earlier.views,
            refreshed: if earlier.is_pending() {
                earlier.refreshed + 1
            } else {
                earlier.refreshed
            },
        }
    }
}

/// A round comes to each view once, in order, and is over after the last.
pub proof fn law_round_comes_to_each_view(views: Seq<Seq<char>>, n: nat)
    requires
        n <= views.len(),
    ensures
        after_refreshes(MatviewRoundView { views, refreshed: 0 }, n) == (MatviewRoundView {
            views,
            refreshed: n as int,
        }),
        after_refreshes(MatviewRoundView { views, refreshed: 0 }, n).is_pending() <==> n
            < views.len(),
    decreases n,
{
    if n > 0 {
        law_round_comes_to_each_view(views, (n - 1) as nat);
    }
}

/// A view is left to be refreshed exactly where fewer were refreshed than there are.
pub proof fn law_view_is_pending_until_refreshed(round: MatviewRoundView)
    requires
        round.refreshed >= 0,
    ensures
        round.is_pending() <==> round.refreshed < round.views.len(),
{
}

} // verus!
