//! An attachment together with the message that carried it.

use vstd::prelude::*;

use crate::gateway::{Attachment, Message};

verus! {

/// The URL and file name of an attachment, with its message.
pub struct MiniAttachment {
    pub url: String,
    pub msg: Message,
    pub filename: String,
}

impl MiniAttachment {
    /// Pairs attachment `att` with its message `msg`.
    pub fn from_attachment(msg: Message, att: Attachment) -> (r: Self)
        ensures
            r.msg == msg,
            r.url == att.url,
            r.filename == att.filename,
    {
        MiniAttachment { msg, url: att.url, filename: att.filename }
    }
}

} // verus!
