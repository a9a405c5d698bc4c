//! Plain-value models of the Discord gateway objects that the bot reads:
//! snowflake ids, messages, their attachments and the channel they were
//! posted in.

use vstd::prelude::*;

verus! {

/// A guild (server) snowflake.
#[derive(Clone, Copy, Debug, PartialEq, Eq, Structural)]
pub struct GuildId(pub u64);

/// An attachment snowflake.
#[derive(Clone, Copy, Debug, PartialEq, Eq, Structural)]
pub struct AttachmentId(pub u64);

/// A message snowflake.
#[derive(Clone, Copy, Debug, PartialEq, Eq, Structural)]
pub struct MessageId(pub u64);

/// A channel snowflake.
#[derive(Clone, Copy, Debug, PartialEq, Eq, Structural)]
pub struct ChannelId(pub u64);

/// A file attached to a message.
pub struct Attachment {
    pub id: AttachmentId,
    pub url: String,
    pub filename: String,
}

/// The parts of a received message that the bot reads.
pub struct Message {
    pub id: MessageId,
    pub channel_id: ChannelId,
    /// `None` for a direct message.
    pub guild_id: Option<GuildId>,
    pub attachments: Vec<Attachment>,
}

/// The guild channel a message was posted in.
pub struct GuildChannel {
    pub name: String,
}

impl Attachment {
    /// A copy of this attachment.
    pub fn duplicate(&self) -> (r: Attachment)
        ensures
            r == *self,
    {
        Attachment { id: self.id, url: self.url.clone(), filename: self.filename.clone() }
    }
}

impl GuildChannel {
    /// A copy of this channel description.
    pub fn duplicate(&self) -> (r: GuildChannel)
        ensures
            r == *self,
    {
        GuildChannel { name: self.name.clone() }
    }
}

impl Message {
    /// Whether the message was sent outside any guild (a direct message).
    pub fn is_private(&self) -> (r: bool)
        ensures
            r == self.guild_id.is_none(),
    {
        self.guild_id.is_none()
    }
}

} // verus!
