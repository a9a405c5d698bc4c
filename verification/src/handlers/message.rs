//! A new message: every attachment of a guild message is marked pending
//! and queued for upload.

use vstd::prelude::*;

use crate::gateway::{Attachment, GuildChannel, GuildId, Message};
use crate::helpers::{pending_key, pending_key_spec};
use crate::processing_queue::ProcessingQueue;
use crate::queue_entry::{lemma_from_gateway_fields, spec_from_gateway, QueueEntry};
use crate::uploader::DbWrite;

verus! {

/// What handling a message asks of the storage and of the uploader.
pub struct MessageEffects {
    /// The pending markers to write, one per attachment, in order.
    pub writes: Vec<DbWrite>,
    /// Whether to wake the uploader.
    pub notify: bool,
}

/// Whether a message is one the bot backs up: sent in a guild, with at
/// least one attachment.
pub open spec fn wants_backup(msg: Message) -> bool {
    msg.guild_id is Some && msg.attachments@.len() > 0
}

/// The queue entries of a message, one per attachment, in order.
pub open spec fn message_entries(msg: Message, chan: Option<GuildChannel>) -> Seq<QueueEntry> {
    Seq::new(msg.attachments@.len(), |i: int| spec_from_gateway(msg, msg.attachments@[i], chan))
}

/// The value of a pending marker: the text `0`.
pub open spec fn pending_value() -> Seq<u8> {
    seq![48u8]
}

/// Handles a message posted in `chan` (`None` when the channel is not
/// known). A guild message with attachments gets, for each attachment in
/// order, a pending marker in the default column family and an entry at the
/// back of `queue`; then the uploader is woken. Any other message changes
/// nothing.
pub fn handle(queue: &mut ProcessingQueue, msg: &Message, chan: Option<GuildChannel>) -> (effects: MessageEffects)
    ensures
        !wants_backup(*msg) ==> final(queue)@ == old(queue)@ && effects.writes@.len() == 0 && !effects.notify,
        wants_backup(*msg) ==> {
            &&& final(queue)@ == old(queue)@ + message_entries(*msg, chan)
            &&& final(queue)@.len() == old(queue)@.len() + msg.attachments@.len()
            &&& forall|i: int| 0 <= i < old(queue)@.len() ==> #[trigger] final(queue)@[i] == old(queue)@[i]
            &&& forall|i: int| 0 <= i < msg.attachments@.len() ==> {
                &&& (#[trigger] final(queue)@[old(queue)@.len() + i]).att_id == msg.attachments@[i].id
                &&& final(queue)@[old(queue)@.len() + i].url == msg.attachments@[i].url
                &&& final(queue)@[old(queue)@.len() + i].fname == msg.attachments@[i].filename
                &&& final(queue)@[old(queue)@.len() + i].msg_id == msg.id
                &&& final(queue)@[old(queue)@.len() + i].guild_id == msg.guild_id
            }
            &&& effects.notify
            &&& effects.writes@.len() == msg.attachments@.len()
            &&& forall|i: int| 0 <= i < effects.writes@.len() ==> {
                &&& (#[trigger] effects.writes@[i]).namespace is None
                &&& effects.writes@[i].key@ == pending_key_spec(msg.guild_id.unwrap().0, msg.attachments@[i].id.0)
                &&& effects.writes@[i].value@ == pending_value()
            }
        },
{
    let mut writes: Vec<DbWrite> = Vec::new();
    if msg.is_private() || msg.attachments.len() == 0 {
        return MessageEffects { writes, notify: false };
    }
    let guild_id: GuildId = match msg.guild_id {
        Some(g) => g,
        None => GuildId(0),
    };
    let ghost start = queue@;
    let n = msg.attachments.len();
    let mut i: usize = 0;
    while i < n
        invariant
            n == msg.attachments@.len(),
            msg.guild_id == Some(guild_id),
            i <= n,
            queue@ == start + message_entries(*msg, chan).take(i as int),
            writes@.len() == i,
            forall|j: int| 0 <= j < i ==> {
                &&& (#[trigger] writes@[j]).namespace is None
                &&& writes@[j].key@ == pending_key_spec(guild_id.0, msg.attachments@[j].id.0)
                &&& writes@[j].value@ == pending_value()
            },
        decreases n - i,
    {
        let att: &Attachment = &msg.attachments[i];
        let mut value: Vec<u8> = Vec::new();
        value.push(48u8);
        assert(value@ =~= pending_value());
        writes.push(DbWrite { namespace: None, key: pending_key(&guild_id, &att.id), value });
        let chan_copy = match &chan {
            Some(c) => Some(c.duplicate()),
            None => None,
        };
        let entry = QueueEntry::from_gateway(msg, att.duplicate(), chan_copy);
        queue.push_back(entry);
        assert(message_entries(*msg, chan).take(i + 1) =~= message_entries(*msg, chan).take(i as int).push(entry));
        i = i + 1;
    }
    assert(message_entries(*msg, chan).take(n as int) =~= message_entries(*msg, chan));
    proof {
        lemma_message_entries(*msg, chan);
    }
    MessageEffects { writes, notify: true }
}

/// A message has one queue entry per attachment, in the attachments'
/// order, each carrying that attachment's id, URL and file name and the
/// message's id, channel and guild.
pub proof fn lemma_message_entries(msg: Message, chan: Option<GuildChannel>)
    ensures
        message_entries(msg, chan).len() == msg.attachments@.len(),
        forall|i: int| 0 <= i < msg.attachments@.len() ==> {
            &&& (#[trigger] message_entries(msg, chan)[i]).att_id == msg.attachments@[i].id
            &&& message_entries(msg, chan)[i].url == msg.attachments@[i].url
            &&& message_entries(msg, chan)[i].fname == msg.attachments@[i].filename
            &&& message_entries(msg, chan)[i].msg_id == msg.id
            &&& message_entries(msg, chan)[i].ch_id == msg.channel_id
            &&& message_entries(msg, chan)[i].guild_id == msg.guild_id
        },
{
    assert forall|i: int| 0 <= i < msg.attachments@.len() implies {
        &&& (#[trigger] message_entries(msg, chan)[i]).att_id == msg.attachments@[i].id
        &&& message_entries(msg, chan)[i].url == msg.attachments@[i].url
        &&& message_entries(msg, chan)[i].fname == msg.attachments@[i].filename
        &&& message_entries(msg, chan)[i].msg_id == msg.id
        &&& message_entries(msg, chan)[i].ch_id == msg.channel_id
        &&& message_entries(msg, chan)[i].guild_id == msg.guild_id
    } by {
        lemma_from_gateway_fields(msg, msg.attachments@[i], chan);
    }
}

} // verus!
