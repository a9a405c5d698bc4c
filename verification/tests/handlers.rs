use grrr::gateway::{Attachment, AttachmentId, ChannelId, GuildChannel, GuildId, Message, MessageId};
use grrr::handlers::cache_ready::{GuildNamespaces, NamespaceAction};
use grrr::handlers::message::handle;
use grrr::processing_queue::ProcessingQueue;
use grrr::queue_entry::QueueEntry;

fn att(id: u64, name: &str) -> Attachment {
    Attachment {
        id: AttachmentId(id),
        url: format!("https://cdn.discordapp.com/attachments/9/{}/{}", id, name),
        filename: name.to_string(),
    }
}

fn msg(guild: Option<u64>, atts: Vec<Attachment>) -> Message {
    Message { id: MessageId(500), channel_id: ChannelId(9), guild_id: guild.map(GuildId), attachments: atts }
}

#[test]
fn private_message_changes_nothing() {
    let mut q = ProcessingQueue::new();
    let m = msg(None, vec![att(1, "a.png")]);
    assert!(m.is_private());
    let fx = handle(&mut q, &m, None);
    assert!(!fx.notify);
    assert!(fx.writes.is_empty());
    assert!(q.is_empty());
}

#[test]
fn message_without_attachments_changes_nothing() {
    let mut q = ProcessingQueue::new();
    let m = msg(Some(3), vec![]);
    assert!(!m.is_private());
    let fx = handle(&mut q, &m, Some(GuildChannel { name: "general".to_string() }));
    assert!(!fx.notify);
    assert!(fx.writes.is_empty());
    assert_eq!(q.len(), 0);
}

#[test]
fn guild_message_queues_each_attachment() {
    let mut q = ProcessingQueue::new();
    let m = msg(Some(3), vec![att(11, "a.png"), att(12, "b.png")]);
    let fx = handle(&mut q, &m, Some(GuildChannel { name: "general".to_string() }));
    assert!(fx.notify);
    assert_eq!(fx.writes.len(), 2);
    assert_eq!(fx.writes[0].namespace, None);
    assert_eq!(fx.writes[0].key, "guild(3):attachment(11)");
    assert_eq!(fx.writes[0].value, b"0".to_vec());
    assert_eq!(fx.writes[1].key, "guild(3):attachment(12)");
    assert_eq!(q.len(), 2);
    // The uploader takes the newest entry first.
    let last = q.pop_back().unwrap();
    assert_eq!(last.att_id, AttachmentId(12));
    assert_eq!(last.fname, "b.png");
    assert_eq!(last.msg_id, MessageId(500));
    assert_eq!(last.ch_id, ChannelId(9));
    assert_eq!(last.guild_id, Some(GuildId(3)));
    assert_eq!(last.ch_name.as_deref(), Some("general"));
    assert_eq!(last.url, "https://cdn.discordapp.com/attachments/9/12/b.png");
    let first = q.pop_back().unwrap();
    assert_eq!(first.att_id, AttachmentId(11));
    assert!(q.pop_back().is_none());
}

#[test]
fn queue_is_last_in_first_out() {
    let mut q = ProcessingQueue::new();
    let m = msg(Some(1), vec![]);
    let e = |id: u64| QueueEntry::from_gateway(&m, att(id, "x"), None);
    q.push_back(e(1));
    q.push_back(e(2));
    assert_eq!(q.pop_back().unwrap().att_id, AttachmentId(2));
    q.push_back(e(3));
    assert_eq!(q.pop_back().unwrap().att_id, AttachmentId(3));
    assert_eq!(q.pop_back().unwrap().att_id, AttachmentId(1));
    assert!(q.pop_back().is_none());
    assert!(q.is_empty());
}

#[test]
fn from_gateway_copies_fields() {
    let m = msg(Some(4), vec![]);
    let e = QueueEntry::from_gateway(&m, att(8, "f.txt"), Some(GuildChannel { name: "c".to_string() }));
    assert_eq!(e.att_id, AttachmentId(8));
    assert_eq!(e.fname, "f.txt");
    assert_eq!(e.url, "https://cdn.discordapp.com/attachments/9/8/f.txt");
    assert_eq!(e.guild_id, Some(GuildId(4)));
    assert_eq!(e.ch_name.as_deref(), Some("c"));
    let e2 = QueueEntry::from_gateway(&m, att(8, "f.txt"), None);
    assert_eq!(e2.ch_name, None);
}

#[test]
fn namespaces_created_once() {
    let mut ns = GuildNamespaces::new(vec!["default".to_string(), "guild(a)".to_string()]);
    assert!(ns.contains(&"default".to_string()));
    match ns.plan(&GuildId(10)) {
        NamespaceAction::Skip(name) => assert_eq!(name, "guild(a)"),
        NamespaceAction::Create(_) => panic!("guild(a) exists"),
    }
    let name = match ns.plan(&GuildId(11)) {
        NamespaceAction::Create(name) => name,
        NamespaceAction::Skip(_) => panic!("guild(b) is missing"),
    };
    assert_eq!(name, "guild(b)");
    ns.record_created(name);
    assert!(matches!(ns.plan(&GuildId(11)), NamespaceAction::Skip(_)));
}
