use grrr::commands::configurator::configure;
use grrr::configurator::config::ServiceConfig;
use grrr::configurator::gdrive::GdriveConfig;
use grrr::gateway::{Attachment, AttachmentId, ChannelId, GuildId, Message, MessageId};
use grrr::mini_attachment::MiniAttachment;
use grrr::reactions::{clock_reaction, magnet_reaction, ReactionType};
use grrr::upload::client::get_user_agent;

#[test]
fn reactions_are_unicode_emoji() {
    match magnet_reaction() {
        ReactionType::Unicode(s) => assert_eq!(s, "🧲"),
    }
    match clock_reaction() {
        ReactionType::Unicode(s) => assert_eq!(s, "⏲️"),
    }
}

#[test]
fn user_agent() {
    assert_eq!(get_user_agent("0.1.0"), "grrr@0.1.0");
    assert_eq!(get_user_agent(""), "grrr@");
}

#[test]
fn configure_reply() {
    assert_eq!(configure(true, "https://x", GuildId(5), "sig"), None);
    assert_eq!(
        configure(false, "https://x", GuildId(5), "sig").as_deref(),
        Some("Please visithttps://x/dashboard/5?s=sig\n")
    );
}

#[test]
fn mini_attachment_pairs_message() {
    let m = Message { id: MessageId(1), channel_id: ChannelId(2), guild_id: Some(GuildId(3)), attachments: vec![] };
    let a = Attachment { id: AttachmentId(4), url: "u".to_string(), filename: "f".to_string() };
    let mini = MiniAttachment::from_attachment(m, a);
    assert_eq!(mini.url, "u");
    assert_eq!(mini.filename, "f");
    assert_eq!(mini.msg.id, MessageId(1));
}

#[test]
fn service_config_holds_drive_settings() {
    let cfg = ServiceConfig::GoogleDrive(GdriveConfig { token: "t".to_string(), root_folder_id: None });
    match cfg {
        ServiceConfig::GoogleDrive(g) => {
            assert_eq!(g.token, "t");
            assert!(g.root_folder_id.is_none());
        }
    }
}
