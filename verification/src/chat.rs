//! Chat platforms of the combined chat dock.
use vstd::prelude::*;

verus! {

/// A platform whose chat the dock connects to.
#[derive(Debug, Clone, Copy, PartialEq, Eq, Structural)]
pub enum ChatPlatform {
    Twitch,
    Kick,
    YouTube,
}

} // verus!
