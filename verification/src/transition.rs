//! Scene transition kinds.
use vstd::prelude::*;

verus! {

/// How the program output moves from one scene to the next.
#[derive(Debug, Clone, Copy, PartialEq, Eq, Structural)]
pub enum TransitionKind {
    /// Switch at once.
    Cut,
    /// Cross-fade over the transition's duration.
    Fade,
}

impl Default for TransitionKind {
    fn default() -> (r: Self)
        ensures
            r == TransitionKind::Cut,
    {
        TransitionKind::Cut
    }
}

impl TransitionKind {
    /// Every kind, in display order.
    pub fn all() -> (r: [TransitionKind; 2])
        ensures
            r@ == seq![TransitionKind::Cut, TransitionKind::Fade],
    {
        [TransitionKind::Cut, TransitionKind::Fade]
    }

    /// Display name of the kind.
    pub fn label(self) -> (r: &'static str)
        ensures
            r@ == match self {
                TransitionKind::Cut => "Cut"@,
                TransitionKind::Fade => "Fade"@,
            },
    {
        match self {
            TransitionKind::Cut => "Cut",
            TransitionKind::Fade => "Fade",
        }
    }
}

} // verus!
