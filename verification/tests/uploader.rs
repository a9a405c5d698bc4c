use grrr::json::{frame_json_object, json_string_of};
use grrr::gateway::{AttachmentId, ChannelId, GuildId, MessageId};
use grrr::queue_entry::QueueEntry;
use grrr::text::{simple_given_alphabetic, only_utf8_simple, remove_all_exec, retain_simple, str_contains_char, chars_of};
use grrr::uploader::{attch_status_write, discord_flake, get_drive_file_path, process_file, CopyFileRequest};
use grrr::status::AttachmentStatus;

fn entry(att: u64, ch_name: Option<&str>, fname: &str, url: &str) -> QueueEntry {
    QueueEntry {
        url: url.to_string(),
        fname: fname.to_string(),
        msg_id: MessageId(10),
        ch_id: ChannelId(20),
        guild_id: Some(GuildId(255)),
        att_id: AttachmentId(att),
        ch_name: ch_name.map(|s| s.to_string()),
    }
}

#[test]
fn simple_characters() {
    for c in ['a', 'Z', 'é', 'ß', '京', '0', '9', ',', ' ', '(', ')', '-', '[', ']', '{', '}', ';', '?'] {
        assert!(only_utf8_simple(c), "{:?} should stay", c);
    }
    for c in ['/', '_', '.', '#', '!', '\\', '"', '\n', '\u{1f9f2}', '٣'] {
        let expected = c.is_alphabetic() || c.is_ascii_digit();
        assert_eq!(only_utf8_simple(c), expected, "{:?}", c);
    }
    assert!(!only_utf8_simple('/'));
    assert!(!only_utf8_simple('_'));
    assert!(!only_utf8_simple('.'));
}

#[test]
fn retain_keeps_simple_characters_in_order() {
    assert_eq!(retain_simple("général #1!"), "général 1");
    assert_eq!(retain_simple("my_file.tar.gz"), "myfiletargz");
    assert_eq!(retain_simple("../../etc/passwd"), "etcpasswd");
    assert_eq!(retain_simple(""), "");
    assert_eq!(retain_simple("a (b) [c] {d}; e?"), "a (b) [c] {d}; e?");
}

#[test]
fn string_helpers() {
    assert!(str_contains_char("abc", 'b'));
    assert!(!str_contains_char("abc", 'd'));
    assert!(!str_contains_char("", 'a'));
    assert_eq!(chars_of("hé"), vec!['h', 'é']);
    assert_eq!(remove_all_exec("abab", "ab"), "");
    assert_eq!(remove_all_exec("aaa", "aa"), "a");
    assert_eq!(remove_all_exec("xaby", "ab"), "xy");
    assert_eq!(remove_all_exec("xy", ""), "xy");
    assert_eq!(remove_all_exec("xy", "xyz"), "xy");
    for (s, p) in [("aaaa", "aa"), ("abcabcab", "cab"), ("héhéh", "hé")] {
        assert_eq!(remove_all_exec(s, p), s.replace(p, ""));
    }
}

#[test]
fn drive_path_with_channel() {
    let e = entry(1234, Some("général #1!"), "my_photo.png", "u");
    assert_eq!(get_drive_file_path(&e), "général 1/1234_myphotopng");
}

#[test]
fn drive_path_without_channel() {
    let e = entry(7, None, "notes.txt", "u");
    assert_eq!(get_drive_file_path(&e), "unknown_channel/7_notestxt");
}

#[test]
fn drive_paths_of_distinct_attachments_differ() {
    let a = entry(12, Some("ch"), "3_x", "u");
    let b = entry(123, Some("ch"), "x", "u");
    assert_ne!(get_drive_file_path(&a), get_drive_file_path(&b));
    let c = entry(1, Some("a/b"), "f", "u");
    let d = entry(2, Some("ab"), "f", "u");
    assert_ne!(get_drive_file_path(&c), get_drive_file_path(&d));
}

#[test]
fn flake_drops_cdn_prefix() {
    assert_eq!(
        discord_flake("https://cdn.discordapp.com/attachments/1/2/file.png"),
        "1/2/file.png"
    );
    assert_eq!(discord_flake("https://example.com/x"), "https://example.com/x");
    let odd = "https://cdn.discordapp.com/attachments/https://cdn.discordapp.com/attachments/y";
    assert_eq!(discord_flake(odd), odd.replace("https://cdn.discordapp.com/attachments/", ""));
}

#[test]
fn copy_file_json_plain() {
    let r = CopyFileRequest {
        src_fs: "discord:".to_string(),
        src_remote: "1/2/a.png".to_string(),
        dst_fs: "gdrive:".to_string(),
        dst_remote: "ch/2_apng".to_string(),
    };
    assert_eq!(
        r.to_json(),
        r#"{"srcFs":"discord:","srcRemote":"1/2/a.png","dstFs":"gdrive:","dstRemote":"ch/2_apng"}"#
    );
}

#[test]
fn copy_file_json_escapes() {
    let r = CopyFileRequest {
        src_fs: "a\"b".to_string(),
        src_remote: "back\\slash".to_string(),
        dst_fs: "line\nbreak".to_string(),
        dst_remote: "é".to_string(),
    };
    let body = r.to_json();
    assert_eq!(
        body,
        r#"{"srcFs":"a\"b","srcRemote":"back\\slash","dstFs":"line\nbreak","dstRemote":"é"}"#
    );
    let v: serde_json::Value = serde_json::from_str(&body).unwrap();
    assert_eq!(v["srcFs"], "a\"b");
    assert_eq!(v["srcRemote"], "back\\slash");
    assert_eq!(v["dstFs"], "line\nbreak");
    assert_eq!(v["dstRemote"], "é");
}

#[test]
fn status_write_targets_guild_family() {
    let w = attch_status_write(&GuildId(255), &AttachmentId(16), AttachmentStatus::Processed);
    assert_eq!(w.namespace.as_deref(), Some("guild(ff)"));
    assert_eq!(w.key, "attch:10");
    assert_eq!(w.value, vec![2u8]);
}

#[test]
fn process_file_job() {
    let e = entry(
        99,
        Some("backups"),
        "report 2021.pdf",
        "https://cdn.discordapp.com/attachments/5/99/report_2021.pdf",
    );
    let job = process_file(&e);
    assert_eq!(job.processing.namespace.as_deref(), Some("guild(ff)"));
    assert_eq!(job.processing.key, "attch:63");
    assert_eq!(job.processing.value, vec![1u8]);
    assert_eq!(job.processed.namespace.as_deref(), Some("guild(ff)"));
    assert_eq!(job.processed.key, "attch:63");
    assert_eq!(job.processed.value, vec![2u8]);
    assert_eq!(job.url, "http://localhost:5572/operations/copyfile");
    assert_eq!(job.request.src_fs, "discord:");
    assert_eq!(job.request.src_remote, "5/99/report_2021.pdf");
    assert_eq!(job.request.dst_fs, "gdrive:");
    assert_eq!(job.request.dst_remote, "backups/99_report 2021pdf");
    assert_eq!(
        job.body,
        r#"{"srcFs":"discord:","srcRemote":"5/99/report_2021.pdf","dstFs":"gdrive:","dstRemote":"backups/99_report 2021pdf"}"#
    );
}

#[test]
fn json_framing_of_rendered_members() {
    let members = vec![
        ("K1".to_string(), "V1".to_string()),
        ("K2".to_string(), "V2".to_string()),
    ];
    assert_eq!(frame_json_object(&members), "{K1:V1,K2:V2}");
    assert_eq!(frame_json_object(&vec![]), "{}");
    assert_eq!(json_string_of("plain"), "\"plain\"");
    assert_eq!(json_string_of("a\"b"), "\"a\\\"b\"");
    assert_eq!(json_string_of("tab\t"), "\"tab\\t\"");
}

#[test]
fn drive_path_has_one_slash_and_no_dots() {
    let e = entry(42, Some("../../etc"), "../passwd.txt", "u");
    let p = get_drive_file_path(&e);
    assert_eq!(p, "etc/42_passwdtxt");
    assert_eq!(p.matches('/').count(), 1);
    assert!(!p.contains('.'));
}

#[test]
fn simple_given_alphabetic_decides_the_rest() {
    assert!(simple_given_alphabetic('京', true));
    assert!(!simple_given_alphabetic('京', false));
    assert!(simple_given_alphabetic('٣', false) == false);
    assert!(simple_given_alphabetic('7', false));
    assert!(simple_given_alphabetic('?', false));
    assert!(!simple_given_alphabetic('/', false));
}

#[test]
fn json_control_characters() {
    assert_eq!(json_string_of("\u{1}"), "\"\\u0001\"");
    assert_eq!(json_string_of("\u{1f}x\u{8}\u{c}\r"), "\"\\u001fx\\b\\f\\r\"");
    assert_eq!(json_string_of(""), "\"\"");
}
