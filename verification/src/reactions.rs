//! The reactions the bot puts on messages.

use vstd::prelude::*;

verus! {

/// A reaction emoji.
pub enum ReactionType {
    /// A Unicode emoji, given by its text.
    Unicode(String),
}

/// The magnet: the attachments of the message were uploaded.
pub fn magnet_reaction() -> (r: ReactionType)
    ensures
        r matches ReactionType::Unicode(s) && s@ == "\u{1f9f2}"@,
{
    ReactionType::Unicode(String::from_str("\u{1f9f2}"))
}

/// The timer clock: the attachments of the message are waiting.
pub fn clock_reaction() -> (r: ReactionType)
    ensures
        r matches ReactionType::Unicode(s) && s@ == "\u{23f2}\u{fe0f}"@,
{
    ReactionType::Unicode(String::from_str("\u{23f2}\u{fe0f}"))
}

} // verus!
