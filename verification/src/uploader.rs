//! What the uploader does with one queue entry: where the file goes on the
//! drive, the rclone `operations/copyfile` request that copies it there,
//! and the status writes around the copy.

use vstd::prelude::*;

use crate::digits::{decimal, is_decimal_of, lemma_decimal_reads_back, is_decimal_char, lemma_radix_digits_chars, lemma_radix_digits_injective, push_decimal};
use crate::gateway::{AttachmentId, GuildId};
use crate::helpers::{attachment_key_spec, guild_key, RocksDbKey};
use crate::json::{json_members, json_plain, lemma_json_plain, frame_json_object, json_object, json_string, json_string_of, member_views};
use crate::queue_entry::QueueEntry;
use crate::status::AttachmentStatus;
use crate::text::{keep_simple, lemma_keep_simple_chars, lemma_keep_simple_is_filter, lemma_remove_all_absent, lemma_remove_all_leading, occurs_nowhere, remove_all, remove_all_exec, retain_simple, push_char, simple_char, simple_punct};

verus! {

/// The rclone endpoint that copies one file between remotes.
pub const COPYFILE_URL: &'static str = "http://localhost:5572/operations/copyfile";

/// The prefix of Discord CDN attachment URLs.
pub const DISCORD_CDN_PREFIX: &'static str = "https://cdn.discordapp.com/attachments/";

/// The rclone remote that serves Discord attachments.
pub const DISCORD_REMOTE: &'static str = "discord:";

/// The rclone remote of the drive.
pub const DRIVE_REMOTE: &'static str = "gdrive:";

/// `unknown_channel/`
pub open spec fn unknown_channel_folder() -> Seq<char> {
    seq!['u', 'n', 'k', 'n', 'o', 'w', 'n', '_', 'c', 'h', 'a', 'n', 'n', 'e', 'l', '/']
}

/// The folder part of an entry's drive path: the channel name reduced to
/// simple characters, then `/`; `unknown_channel/` when the channel is not
/// known.
pub open spec fn drive_folder(entry: QueueEntry) -> Seq<char> {
    match entry.ch_name {
        Some(name) => keep_simple(name@).push('/'),
        None => unknown_channel_folder(),
    }
}

/// The file part of an entry's drive path: the attachment id in decimal,
/// `_`, then the file name reduced to simple characters.
pub open spec fn drive_file_name(entry: QueueEntry) -> Seq<char> {
    decimal(entry.att_id.0 as nat) + seq!['_'] + keep_simple(entry.fname@)
}

/// Where an entry's file goes on the drive.
pub open spec fn drive_file_path(entry: QueueEntry) -> Seq<char> {
    drive_folder(entry) + drive_file_name(entry)
}

/// Where the file of `entry` goes on the drive:
/// `<channel>/<attachment id>_<file name>`, the channel and file names
/// reduced to simple characters.
pub fn get_drive_file_path(entry: &QueueEntry) -> (path: String)
    ensures
        path@ == drive_file_path(*entry),
{
    let mut path = String::new();
    match &entry.ch_name {
        Some(ch_name) => {
            let kept = retain_simple(ch_name.as_str());
            path.append(kept.as_str());
            push_char(&mut path, '/');
        },
        None => {
            path.append("unknown_channel/");
            proof {
                reveal_strlit("unknown_channel/");
            }
        },
    }
    let ghost folder = path@;
    assert(folder =~= drive_folder(*entry));
    push_decimal(&mut path, entry.att_id.0);
    push_char(&mut path, '_');
    let fname = retain_simple(entry.fname.as_str());
    path.append(fname.as_str());
    assert(path@ =~= drive_file_path(*entry));
    path
}

/// The path of an attachment on the Discord remote: its URL without the
/// CDN prefix.
pub fn discord_flake(url: &str) -> (flake: String)
    ensures
        flake@ == remove_all(url@, DISCORD_CDN_PREFIX@),
{
    remove_all_exec(url, DISCORD_CDN_PREFIX)
}

/// The body of rclone's `operations/copyfile`: copy `src_remote` on
/// `src_fs` to `dst_remote` on `dst_fs`.
pub struct CopyFileRequest {
    pub src_fs: String,
    pub src_remote: String,
    pub dst_fs: String,
    pub dst_remote: String,
}

/// The JSON object `{"srcFs":..,"srcRemote":..,"dstFs":..,"dstRemote":..}`.
pub open spec fn copy_file_json(src_fs: Seq<char>, src_remote: Seq<char>, dst_fs: Seq<char>, dst_remote: Seq<char>) -> Seq<char> {
    json_object(seq![
        (json_string(seq!['s', 'r', 'c', 'F', 's']), json_string(src_fs)),
        (json_string(seq!['s', 'r', 'c', 'R', 'e', 'm', 'o', 't', 'e']), json_string(src_remote)),
        (json_string(seq!['d', 's', 't', 'F', 's']), json_string(dst_fs)),
        (json_string(seq!['d', 's', 't', 'R', 'e', 'm', 'o', 't', 'e']), json_string(dst_remote)),
    ])
}

impl CopyFileRequest {
    /// The request as a JSON object.
    pub fn to_json(&self) -> (r: String)
        ensures
            r@ == copy_file_json(self.src_fs@, self.src_remote@, self.dst_fs@, self.dst_remote@),
    {
        proof {
            reveal_strlit("srcFs");
            reveal_strlit("srcRemote");
            reveal_strlit("dstFs");
            reveal_strlit("dstRemote");
            assert("srcFs"@ =~= seq!['s', 'r', 'c', 'F', 's']);
            assert("srcRemote"@ =~= seq!['s', 'r', 'c', 'R', 'e', 'm', 'o', 't', 'e']);
            assert("dstFs"@ =~= seq!['d', 's', 't', 'F', 's']);
            assert("dstRemote"@ =~= seq!['d', 's', 't', 'R', 'e', 'm', 'o', 't', 'e']);
        }
        let mut members: Vec<(String, String)> = Vec::new();
        members.push((json_string_of("srcFs"), json_string_of(self.src_fs.as_str())));
        members.push((json_string_of("srcRemote"), json_string_of(self.src_remote.as_str())));
        members.push((json_string_of("dstFs"), json_string_of(self.dst_fs.as_str())));
        members.push((json_string_of("dstRemote"), json_string_of(self.dst_remote.as_str())));
        let r = frame_json_object(&members);
        assert(member_views(members@) =~= seq![
            (json_string(seq!['s', 'r', 'c', 'F', 's']), json_string(self.src_fs@)),
            (json_string(seq!['s', 'r', 'c', 'R', 'e', 'm', 'o', 't', 'e']), json_string(self.src_remote@)),
            (json_string(seq!['d', 's', 't', 'F', 's']), json_string(self.dst_fs@)),
            (json_string(seq!['d', 's', 't', 'R', 'e', 'm', 'o', 't', 'e']), json_string(self.dst_remote@)),
        ]);
        r
    }
}

/// One write to the bot's storage: `value` under `key`, in the column
/// family `namespace` (the default one when `None`).
pub struct DbWrite {
    pub namespace: Option<String>,
    pub key: String,
    pub value: Vec<u8>,
}

/// The write that records `status` for attachment `att` of guild
/// `guild_id`: in the guild's column family, under the attachment's key,
/// the status byte.
pub fn attch_status_write(guild_id: &GuildId, att: &AttachmentId, status: AttachmentStatus) -> (w: DbWrite)
    ensures
        w.namespace matches Some(ns) && ns@ == guild_key(guild_id.0),
        w.key@ == attachment_key_spec(att.0),
        w.value@ == seq![status.code()],
{
    let mut value: Vec<u8> = Vec::new();
    let code: u8 = match status {
        AttachmentStatus::Pending => 0,
        AttachmentStatus::Processing => 1,
        AttachmentStatus::Processed => 2,
    };
    value.push(code);
    assert(value@ =~= seq![status.code()]);
    DbWrite { namespace: Some(guild_id.to_db_key()), key: att.to_db_key(), value }
}

/// The work of uploading one queue entry, in order: mark it processing,
/// post `body` (the JSON of `request`) to `url`, mark it processed.
pub struct FileJob {
    pub processing: DbWrite,
    pub url: String,
    pub request: CopyFileRequest,
    pub body: String,
    pub processed: DbWrite,
}

/// The upload job of `entry`: the file at its CDN path on the Discord
/// remote is copied to its drive path on the drive remote, with the
/// attachment's status set to processing before and processed after.
/// An entry without a guild is refused by `requires` (the uploader
/// unwraps the guild id).
pub fn process_file(entry: &QueueEntry) -> (job: FileJob)
    requires
        entry.guild_id is Some,
    ensures
        job.processing.namespace matches Some(ns) && ns@ == guild_key(entry.guild_id.unwrap().0),
        job.processing.key@ == attachment_key_spec(entry.att_id.0),
        job.processing.value@ == seq![AttachmentStatus::Processing.code()],
        job.processed.namespace matches Some(ns) && ns@ == guild_key(entry.guild_id.unwrap().0),
        job.processed.key@ == attachment_key_spec(entry.att_id.0),
        job.processed.value@ == seq![AttachmentStatus::Processed.code()],
        job.url@ == COPYFILE_URL@,
        job.request.src_fs@ == DISCORD_REMOTE@,
        job.request.src_remote@ == remove_all(entry.url@, DISCORD_CDN_PREFIX@),
        job.request.dst_fs@ == DRIVE_REMOTE@,
        job.request.dst_remote@ == drive_file_path(*entry),
        job.body@ == copy_file_json(job.request.src_fs@, job.request.src_remote@, job.request.dst_fs@, job.request.dst_remote@),
{
    let guild_id = match &entry.guild_id {
        Some(g) => *g,
        None => GuildId(0),
    };
    let processing = attch_status_write(&guild_id, &entry.att_id, AttachmentStatus::Processing);
    let flake = discord_flake(entry.url.as_str());
    let drive_file_name = get_drive_file_path(entry);
    let request = CopyFileRequest {
        src_fs: String::from_str(DISCORD_REMOTE),
        src_remote: flake,
        dst_fs: String::from_str(DRIVE_REMOTE),
        dst_remote: drive_file_name,
    };
    let body = request.to_json();
    let processed = attch_status_write(&guild_id, &entry.att_id, AttachmentStatus::Processed);
    FileJob { processing, url: String::from_str(COPYFILE_URL), request, body, processed }
}

/// The folder name of an entry's drive path, without the final `/`.
pub open spec fn folder_name(entry: QueueEntry) -> Seq<char> {
    drive_folder(entry).drop_last()
}

proof fn lemma_slash_and_underscore_not_simple()
    ensures
        !simple_char('/'),
        !simple_char('_'),
        !simple_char('.'),
{
    assert forall|i: int| 0 <= i < simple_punct().len() implies simple_punct()[i] != '/' && simple_punct()[i] != '_' && simple_punct()[i] != '.' by {
    }
}

proof fn lemma_folder_shape(entry: QueueEntry)
    ensures
        drive_folder(entry) == folder_name(entry).push('/'),
        forall|i: int| 0 <= i < folder_name(entry).len() ==> #[trigger] folder_name(entry)[i] != '/',
{
    lemma_slash_and_underscore_not_simple();
    match entry.ch_name {
        Some(name) => {
            lemma_keep_simple_chars(name@);
            assert(folder_name(entry) =~= keep_simple(name@));
        },
        None => {
            assert(drive_folder(entry) =~= folder_name(entry).push('/'));
        },
    }
}

/// Attachments with different ids never share a drive path, whatever their
/// channel and file names: the uploader never copies two attachments onto
/// one file.
pub proof fn lemma_drive_paths_distinct(e1: QueueEntry, e2: QueueEntry)
    requires
        e1.att_id != e2.att_id,
    ensures
        drive_file_path(e1) != drive_file_path(e2),
{
    if drive_file_path(e1) == drive_file_path(e2) {
        let p = drive_file_path(e1);
        lemma_folder_shape(e1);
        lemma_folder_shape(e2);
        lemma_slash_and_underscore_not_simple();
        lemma_keep_simple_chars(e1.fname@);
        lemma_keep_simple_chars(e2.fname@);
        let f1 = folder_name(e1);
        let f2 = folder_name(e2);
        let d1 = decimal(e1.att_id.0 as nat);
        let d2 = decimal(e2.att_id.0 as nat);
        lemma_radix_digits_chars(e1.att_id.0 as nat, 10);
        lemma_radix_digits_chars(e2.att_id.0 as nat, 10);
        assert(p == f1.push('/') + (d1 + seq!['_'] + keep_simple(e1.fname@)));
        assert(p == f2.push('/') + (d2 + seq!['_'] + keep_simple(e2.fname@)));
        if f1.len() < f2.len() {
            assert(p[f1.len() as int] == '/');
            assert(p[f1.len() as int] == f2[f1.len() as int]);
        } else if f2.len() < f1.len() {
            assert(p[f2.len() as int] == '/');
            assert(p[f2.len() as int] == f1[f2.len() as int]);
        } else {
            let o: int = f1.len() as int + 1;
            if d1.len() < d2.len() {
                assert(p[o + d1.len()] == '_');
                assert(p[o + d1.len()] == d2[d1.len() as int]);
                assert(is_decimal_char(d2[d1.len() as int]));
            } else if d2.len() < d1.len() {
                assert(p[o + d2.len()] == '_');
                assert(p[o + d2.len()] == d1[d2.len() as int]);
                assert(is_decimal_char(d1[d2.len() as int]));
            } else {
                assert(d1 =~= p.subrange(o, o + d1.len()));
                assert(d2 =~= p.subrange(o, o + d2.len()));
                lemma_radix_digits_injective(e1.att_id.0 as nat, e2.att_id.0 as nat, 10);
            }
        }
    }
}

/// A Discord CDN URL loses exactly its CDN prefix: the flake of
/// `prefix + rest` is `rest` when `rest` holds no further copy of the prefix.
pub proof fn lemma_flake_of_cdn_url(rest: Seq<char>)
    requires
        occurs_nowhere(rest, DISCORD_CDN_PREFIX@),
    ensures
        remove_all(DISCORD_CDN_PREFIX@ + rest, DISCORD_CDN_PREFIX@) == rest,
{
    reveal_strlit("https://cdn.discordapp.com/attachments/");
    assert(DISCORD_CDN_PREFIX@.len() > 0);
    lemma_remove_all_leading(DISCORD_CDN_PREFIX@, rest);
    lemma_remove_all_absent(rest, DISCORD_CDN_PREFIX@);
}

/// A drive path is one folder and one file name: it holds exactly one `/`,
/// right after the folder name, and no `.` at all, so no path component can
/// be `.` or `..`.
pub proof fn lemma_drive_path_shape(entry: QueueEntry)
    ensures
        forall|i: int| 0 <= i < drive_file_path(entry).len() ==> (#[trigger] drive_file_path(entry)[i] == '/' <==> i == folder_name(entry).len()),
        forall|i: int| 0 <= i < drive_file_path(entry).len() ==> #[trigger] drive_file_path(entry)[i] != '.',
{
    let p = drive_file_path(entry);
    let f = folder_name(entry);
    let d = decimal(entry.att_id.0 as nat);
    let k = keep_simple(entry.fname@);
    lemma_folder_shape(entry);
    lemma_slash_and_underscore_not_simple();
    lemma_keep_simple_chars(entry.fname@);
    lemma_radix_digits_chars(entry.att_id.0 as nat, 10);
    let fo = f.push('/');
    assert(p =~= fo + d + seq!['_'] + k);
    assert forall|i: int| 0 <= i < p.len() implies (#[trigger] p[i] == '/' <==> i == f.len()) && p[i] != '.' by {
        if i < f.len() {
            assert(p[i] == f[i]);
            match entry.ch_name {
                Some(name) => {
                    assert(f =~= keep_simple(name@));
                    lemma_keep_simple_chars(name@);
                    assert(simple_char(f[i]));
                },
                None => {
                    assert(f =~= unknown_channel_folder().drop_last());
                },
            }
        } else if i == f.len() {
        } else if i < f.len() + 1 + d.len() {
            assert(p[i] == d[i - f.len() - 1]);
            assert(is_decimal_char(d[i - f.len() - 1]));
        } else if i == f.len() + 1 + d.len() {
        } else {
            assert(p[i] == k[i - f.len() - 2 - d.len()]);
            assert(simple_char(k[i - f.len() - 2 - d.len()]));
        }
    }
}

/// A drive path is the folder (the simple characters of the channel name,
/// in order, then `/`; `unknown_channel/` without a channel), the attachment
/// id as a decimal numeral, `_`, and the simple characters of the file name
/// in order.
pub proof fn lemma_drive_path_parts(entry: QueueEntry)
    ensures
        exists|d: Seq<char>| is_decimal_of(d, entry.att_id.0 as nat) && drive_file_path(entry) ==
            match entry.ch_name {
                Some(name) => name@.filter(|c: char| simple_char(c)).push('/'),
                None => seq!['u', 'n', 'k', 'n', 'o', 'w', 'n', '_', 'c', 'h', 'a', 'n', 'n', 'e', 'l', '/'],
            } + d + seq!['_'] + entry.fname@.filter(|c: char| simple_char(c)),
{
    lemma_decimal_reads_back(entry.att_id.0 as nat);
    lemma_keep_simple_is_filter(entry.fname@);
    let d = decimal(entry.att_id.0 as nat);
    assert(is_decimal_of(d, entry.att_id.0 as nat));
    match entry.ch_name {
        Some(name) => {
            lemma_keep_simple_is_filter(name@);
        },
        None => {},
    }
    assert(drive_file_path(entry) ==
        match entry.ch_name {
            Some(name) => name@.filter(|c: char| simple_char(c)).push('/'),
            None => seq!['u', 'n', 'k', 'n', 'o', 'w', 'n', '_', 'c', 'h', 'a', 'n', 'n', 'e', 'l', '/'],
        } + d + seq!['_'] + entry.fname@.filter(|c: char| simple_char(c)));
}

/// With fields that need no escaping, the request body is the text
/// `{"srcFs":"<src_fs>","srcRemote":"<src_remote>","dstFs":"<dst_fs>","dstRemote":"<dst_remote>"}`.
#[verifier::spinoff_prover]
#[verifier::rlimit(40)]
pub proof fn lemma_copy_file_json_plain(src_fs: Seq<char>, src_remote: Seq<char>, dst_fs: Seq<char>, dst_remote: Seq<char>)
    requires
        json_plain(src_fs),
        json_plain(src_remote),
        json_plain(dst_fs),
        json_plain(dst_remote),
    ensures
        copy_file_json(src_fs, src_remote, dst_fs, dst_remote) ==
            seq!['{', '"', 's', 'r', 'c', 'F', 's', '"', ':', '"'] + src_fs
            + seq!['"', ',', '"', 's', 'r', 'c', 'R', 'e', 'm', 'o', 't', 'e', '"', ':', '"'] + src_remote
            + seq!['"', ',', '"', 'd', 's', 't', 'F', 's', '"', ':', '"'] + dst_fs
            + seq!['"', ',', '"', 'd', 's', 't', 'R', 'e', 'm', 'o', 't', 'e', '"', ':', '"'] + dst_remote
            + seq!['"', '}'],
{
    let k1 = seq!['s', 'r', 'c', 'F', 's'];
    let k2 = seq!['s', 'r', 'c', 'R', 'e', 'm', 'o', 't', 'e'];
    let k3 = seq!['d', 's', 't', 'F', 's'];
    let k4 = seq!['d', 's', 't', 'R', 'e', 'm', 'o', 't', 'e'];
    assert(json_plain(k1));
    assert(json_plain(k2));
    assert(json_plain(k3));
    assert(json_plain(k4));
    lemma_json_plain(k1);
    lemma_json_plain(k2);
    lemma_json_plain(k3);
    lemma_json_plain(k4);
    lemma_json_plain(src_fs);
    lemma_json_plain(src_remote);
    lemma_json_plain(dst_fs);
    lemma_json_plain(dst_remote);
    let m = seq![
        (json_string(k1), json_string(src_fs)),
        (json_string(k2), json_string(src_remote)),
        (json_string(k3), json_string(dst_fs)),
        (json_string(k4), json_string(dst_remote)),
    ];
    let colon = seq![':'];
    let comma = seq![','];
    assert(m.take(3).drop_last() =~= m.take(2));
    assert(m.take(2).drop_last() =~= m.take(1));
    assert(m.drop_last() =~= m.take(3));
    let j1 = json_members(m.take(1));
    assert(j1 == json_string(k1) + colon + json_string(src_fs));
    let j2 = json_members(m.take(2));
    assert(j2 == j1 + comma + json_string(k2) + colon + json_string(src_remote));
    let j3 = json_members(m.take(3));
    assert(j3 == j2 + comma + json_string(k3) + colon + json_string(dst_fs));
    assert(json_members(m) == j3 + comma + json_string(k4) + colon + json_string(dst_remote));
    assert(copy_file_json(src_fs, src_remote, dst_fs, dst_remote) =~=
            seq!['{', '"', 's', 'r', 'c', 'F', 's', '"', ':', '"'] + src_fs
            + seq!['"', ',', '"', 's', 'r', 'c', 'R', 'e', 'm', 'o', 't', 'e', '"', ':', '"'] + src_remote
            + seq!['"', ',', '"', 'd', 's', 't', 'F', 's', '"', ':', '"'] + dst_fs
            + seq!['"', ',', '"', 'd', 's', 't', 'R', 'e', 'm', 'o', 't', 'e', '"', ':', '"'] + dst_remote
            + seq!['"', '}']);
}

} // verus!
