use grrr::digits::{to_decimal, to_hex};
use grrr::gateway::{Attachment, AttachmentId, ChannelId, GuildId, MessageId};
use grrr::helpers::{attachment_key, pending_key, RocksDbKey};
use grrr::queue_entry::QueueEntry;
use grrr::status::AttachmentStatus;

#[test]
fn decimal_and_hex_renderings() {
    assert_eq!(to_decimal(0), "0");
    assert_eq!(to_decimal(10), "10");
    assert_eq!(to_decimal(305), "305");
    assert_eq!(to_decimal(u64::MAX), u64::MAX.to_string());
    assert_eq!(to_hex(0), "0");
    assert_eq!(to_hex(255), "ff");
    assert_eq!(to_hex(0x1a2b), "1a2b");
    assert_eq!(to_hex(u64::MAX), format!("{:x}", u64::MAX));
}

#[test]
fn guild_key_is_hex_in_parentheses() {
    assert_eq!(GuildId(255).to_db_key(), "guild(ff)");
    assert_eq!(GuildId(0).to_db_key(), "guild(0)");
    let id: u64 = 81384788765712384;
    assert_eq!(GuildId(id).to_db_key(), format!("guild({:x})", id));
}

#[test]
fn attachment_keys_agree_across_types() {
    let id = AttachmentId(0x1a);
    assert_eq!(attachment_key(&id), "attch:1a");
    assert_eq!(id.to_db_key(), "attch:1a");
    let att = Attachment { id, url: "u".to_string(), filename: "f".to_string() };
    assert_eq!(att.to_db_key(), "attch:1a");
    let entry = QueueEntry {
        url: "u".to_string(),
        fname: "f".to_string(),
        msg_id: MessageId(1),
        ch_id: ChannelId(2),
        guild_id: Some(GuildId(3)),
        att_id: id,
        ch_name: None,
    };
    assert_eq!(entry.to_db_key(), "attch:1a");
}

#[test]
fn pending_key_uses_decimal_ids() {
    assert_eq!(pending_key(&GuildId(12), &AttachmentId(345)), "guild(12):attachment(345)");
    assert_eq!(pending_key(&GuildId(0), &AttachmentId(0)), "guild(0):attachment(0)");
}

#[test]
fn keys_of_distinct_ids_differ() {
    assert_ne!(GuildId(1).to_db_key(), GuildId(16).to_db_key());
    assert_ne!(AttachmentId(1).to_db_key(), AttachmentId(16).to_db_key());
    assert_ne!(GuildId(7).to_db_key(), AttachmentId(7).to_db_key());
    assert_ne!(pending_key(&GuildId(1), &AttachmentId(23)), pending_key(&GuildId(12), &AttachmentId(3)));
}

#[test]
fn status_bytes() {
    assert_eq!(AttachmentStatus::Pending.as_ref(), &[0u8][..]);
    assert_eq!(AttachmentStatus::Processing.as_ref(), &[1u8][..]);
    assert_eq!(AttachmentStatus::Processed.as_ref(), &[2u8][..]);
    assert_ne!(AttachmentStatus::Pending.as_ref(), AttachmentStatus::Processed.as_ref());
}
