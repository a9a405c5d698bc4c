//! The unit of upload work: one attachment of one message.

use vstd::prelude::*;

use crate::gateway::{Attachment, AttachmentId, ChannelId, GuildChannel, GuildId, Message, MessageId};

verus! {

/// One attachment waiting to be copied to the drive.
pub struct QueueEntry {
    pub url: String,
    pub fname: String,
    pub msg_id: MessageId,
    pub ch_id: ChannelId,
    pub guild_id: Option<GuildId>,
    pub att_id: AttachmentId,
    pub ch_name: Option<String>,
}

/// The entry that `from_gateway` builds.
pub open spec fn spec_from_gateway(msg: Message, att: Attachment, chan: Option<GuildChannel>) -> QueueEntry {
    QueueEntry {
        url: att.url,
        fname: att.filename,
        msg_id: msg.id,
        ch_id: msg.channel_id,
        guild_id: msg.guild_id,
        att_id: att.id,
        ch_name: match chan {
            Some(c) => Some(c.name),
            None => None,
        },
    }
}

impl QueueEntry {
    /// The entry for attachment `att` of message `msg`, posted in `chan`
    /// (whose name becomes the drive folder).
    pub fn from_gateway(msg: &Message, att: Attachment, chan: Option<GuildChannel>) -> (r: Self)
        ensures
            r == spec_from_gateway(*msg, att, chan),
            r.att_id == att.id,
            r.url == att.url,
            r.fname == att.filename,
            r.msg_id == msg.id,
            r.ch_id == msg.channel_id,
            r.guild_id == msg.guild_id,
            r.ch_name == match chan {
                Some(c) => Some(c.name),
                None => None::<String>,
            },
    {
        let ch_name = match chan {
            Some(chan) => Some(chan.name),
            None => None,
        };
        QueueEntry {
            att_id: att.id,
            msg_id: msg.id,
            ch_id: msg.channel_id,
            guild_id: msg.guild_id,
            url: att.url,
            fname: att.filename,
            ch_name,
        }
    }
}

/// An entry carries its attachment's id, URL and file name, its message's
/// id, channel and guild, and the name of the channel when it is known.
pub proof fn lemma_from_gateway_fields(msg: Message, att: Attachment, chan: Option<GuildChannel>)
    ensures
        spec_from_gateway(msg, att, chan).att_id == att.id,
        spec_from_gateway(msg, att, chan).url == att.url,
        spec_from_gateway(msg, att, chan).fname == att.filename,
        spec_from_gateway(msg, att, chan).msg_id == msg.id,
        spec_from_gateway(msg, att, chan).ch_id == msg.channel_id,
        spec_from_gateway(msg, att, chan).guild_id == msg.guild_id,
        chan is None ==> spec_from_gateway(msg, att, chan).ch_name is None,
        chan matches Some(c) ==> spec_from_gateway(msg, att, chan).ch_name == Some(c.name),
{
}

} // verus!
